//! The look of the busy indicator that accompanies a streaming invocation.

use crate::text::is_digit;
use indicatif::style::TemplateError;
use indicatif::ProgressStyle;
use vstd::prelude::*;

verus! {

/// The style of a progress indicator, as `indicatif` holds it.
#[verifier::external_type_specification]
#[verifier::external_body]
pub struct ExProgressStyle(indicatif::ProgressStyle);

/// The error with which `indicatif` refuses a template.
#[verifier::external_type_specification]
#[verifier::external_body]
pub struct ExTemplateError(indicatif::style::TemplateError);

/// The layout of the indicator: the spinner, then the current message.
pub const TEMPLATE: &'static str = "{prefix:.bold.dim}{spinner} {wide_msg}";

/// The frames of the spinner; the last one is shown when it stops.
pub const TICK_CHARS: &'static str = "⠁⠂⠄⠠⠐⠈ ";

/// The period, in milliseconds, at which the spinner advances, whether or
/// not a new message has arrived.
pub const TICK_MILLIS: u64 = 300;

/// Whether `indicatif` accepts a text as a template. Its template grammar
/// is not restated here.
pub uninterp spec fn template_accepted(template: Seq<char>) -> bool;

/// `indicatif::ProgressStyle::with_template`: parses `template` and returns
/// the style that follows it, or the error on the first character that the
/// template grammar does not allow. Which of the two comes back depends on
/// the text alone, and is named [`template_accepted`]. A width inside a
/// placeholder is read as a 16-bit number, and the parser panics on one
/// that does not fit; a width is made of digits, so a template without
/// digits is required.
#[verifier::external_body]
fn with_template(template: &str) -> (r: Result<ProgressStyle, TemplateError>)
    requires
        forall|k: int| 0 <= k < template@.len() ==> !is_digit(#[trigger] template@[k]),
    ensures
        r is Ok == template_accepted(template@),
{
    ProgressStyle::with_template(template)
}

/// `indicatif::ProgressStyle::tick_chars`: returns the style with the
/// characters of `ticks` as the frames of its spinner. It panics unless
/// there are at least two of them.
#[verifier::external_body]
fn tick_chars(style: ProgressStyle, ticks: &str) -> (r: ProgressStyle)
    requires
        ticks@.len() >= 2,
{
    style.tick_chars(ticks)
}

/// Gives a style that was accepted the frames of [`TICK_CHARS`]; a
/// template that was refused yields no style.
pub fn with_frames(parsed: Result<ProgressStyle, TemplateError>) -> (r: Option<ProgressStyle>)
    ensures
        r is Some == parsed is Ok,
{
    proof {
        reveal_strlit("⠁⠂⠄⠠⠐⠈ ");
    }
    match parsed {
        Ok(style) => Some(tick_chars(style, TICK_CHARS)),
        Err(_) => None,
    }
}

/// Builds the style of the busy indicator from [`TEMPLATE`] and
/// [`TICK_CHARS`]. There is a style exactly if the template is accepted.
pub fn spinner_style() -> (r: Option<ProgressStyle>)
    ensures
        r is Some == template_accepted(TEMPLATE@),
{
    proof {
        reveal_strlit("{prefix:.bold.dim}{spinner} {wide_msg}");
    }
    with_frames(with_template(TEMPLATE))
}

} // verus!
