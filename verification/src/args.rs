//! The calculator's settings.
//!
//! These are the options the host passes in and the settings commands adjust.
//! The core reads them when tokenizing (the input radix) and when rendering
//! (output radix, precision, separators, case); argument parsing itself is the
//! host's concern.

use vstd::prelude::*;

verus! {

/// The calculator's settings, as plain values.
#[derive(Debug)]
pub struct Args {
    /// Radix (base) for input, 2 to 16.
    pub radix: u8,
    /// Input read from this string rather than interactively, when given.
    pub input: Option<String>,
    /// Whether to open an alternate terminal screen instead of calculating
    /// inline.
    pub alternate_screen: bool,
    /// Whether to skip loading and saving history and variables.
    pub no_db: bool,
    /// Output radix, when it differs from the input radix.
    pub convert_to_radix: Option<u8>,
    /// Fractional digits to display.
    pub precision: u8,
    /// Extra precision carried internally beyond the displayed digits.
    pub extra_precision: u8,
    /// Whether to display results as exact fractions instead of decimals.
    pub fractional: bool,
    /// Whether to group integer digits with commas.
    pub commas: bool,
    /// Whether to render digits above nine in uppercase.
    pub upper: bool,
}

impl Args {
    /// The radix results are rendered in: the conversion radix when one is
    /// set, the input radix otherwise.
    pub fn output_radix(&self) -> (r: u8)
        ensures
            r == match self.convert_to_radix {
                Some(c) => c,
                None => self.radix,
            },
    {
        match self.convert_to_radix {
            Some(c) => c,
            None => self.radix,
        }
    }
}

} // verus!
