//! Today's date: `chrono`.

use vstd::prelude::*;

verus! {

/// The one format that dates are written in: day, month and year, with `/`
/// between them.
pub open spec fn date_format() -> Seq<char> {
    "%d/%m/%Y"@
}

/// `chrono::Local::now`, written out by `DateTime::format` in the one format
/// above. Nothing is claimed of the text: it depends on the clock and on the
/// time zone of the machine. The clock is taken to be set to a time that
/// `chrono` can hold: one after 1970.
#[verifier::external_body]
pub(crate) fn local_date(format: &str) -> (date: String)
    requires
        format@ == date_format(),
{
    chrono::Local::now().format(format).to_string()
}

} // verus!
