//! The lines of text that the result region shows for a verdict.

use vstd::prelude::*;
use vstd::string::*;
use crate::arrange::as_ints;
use crate::text::{comma_separated, comma_separated_text, decimal, push_decimal};
use crate::verdict::{Verdict, VerdictModel};

verus! {

/// The lines to show for `shown` when the input control holds `input`: a
/// prompt while nothing is judged, else the verdict in words, followed for a
/// composite number by its factors.
pub open spec fn display_lines(shown: VerdictModel, input: int) -> Seq<Seq<char>> {
    match shown {
        VerdictModel::Unjudged => seq!["Click 'Judge' to check the number"@],
        VerdictModel::Invalid => seq!["❌ Number must be greater than 1"@],
        VerdictModel::Prime => seq!["✅ "@ + decimal(input) + " is a prime number"@],
        VerdictModel::Composite(factors) => seq![
            "❌ "@ + decimal(input) + " is a composite number"@,
            "Factors found:"@,
            comma_separated(factors),
        ],
    }
}

/// The texts of `lines`.
pub open spec fn texts(lines: Seq<String>) -> Seq<Seq<char>> {
    lines.map_values(|line: String| line@)
}

/// `prefix`, the decimal text of `n` and `suffix` in one string.
fn sentence(prefix: &str, n: i64, suffix: &str) -> (text: String)
    ensures
        text@ == prefix@ + decimal(n as int) + suffix@,
{
    let mut text = String::new();
    text.append(prefix);
    push_decimal(&mut text, n);
    text.append(suffix);
    assert(text@ =~= prefix@ + decimal(n as int) + suffix@);
    text
}

/// Writes out the lines to show for `shown` when the input control holds
/// `input`.
pub fn display_text(shown: &Verdict, input: i64) -> (lines: Vec<String>)
    ensures
        texts(lines@) == display_lines(shown@, input as int),
{
    let mut lines: Vec<String> = Vec::new();
    match shown {
        Verdict::Unjudged => {
            lines.push("Click 'Judge' to check the number".to_owned());
        },
        Verdict::Invalid => {
            lines.push("❌ Number must be greater than 1".to_owned());
        },
        Verdict::Prime => {
            lines.push(sentence("✅ ", input, " is a prime number"));
        },
        Verdict::Composite(factors) => {
            lines.push(sentence("❌ ", input, " is a composite number"));
            lines.push("Factors found:".to_owned());
            lines.push(comma_separated_text(factors));
            assert(factors@.map_values(|x: i64| x as int) == as_ints(factors@));
        },
    }
    assert(texts(lines@) =~= display_lines(shown@, input as int));
    lines
}

} // verus!
