use vstd::prelude::*;
use vstd::string::StrSliceExecFns;
use crate::errors::BinstallError;

verus! {

/// The characters with the Unicode property `White_Space`.
pub open spec fn is_white_space(c: char) -> bool {
    let code = c as u32;
    ||| 0x09 <= code <= 0x0d
    ||| code == 0x20
    ||| code == 0x85
    ||| code == 0xa0
    ||| code == 0x1680
    ||| 0x2000 <= code <= 0x200a
    ||| code == 0x2028
    ||| code == 0x2029
    ||| code == 0x202f
    ||| code == 0x205f
    ||| code == 0x3000
}

/// `text` without the white space it begins with.
pub open spec fn trimmed_start(text: Seq<char>) -> Seq<char>
    decreases text.len(),
{
    if text.len() > 0 && is_white_space(text.first()) {
        trimmed_start(text.drop_first())
    } else {
        text
    }
}

/// `text` without the white space it ends with.
pub open spec fn trimmed_end(text: Seq<char>) -> Seq<char>
    decreases text.len(),
{
    if text.len() > 0 && is_white_space(text.last()) {
        trimmed_end(text.drop_last())
    } else {
        text
    }
}

/// A line without the white space around it: the longest part of it that
/// neither begins nor ends with a white-space character.
pub open spec fn trimmed(line: Seq<char>) -> Seq<char> {
    trimmed_end(trimmed_start(line))
}

/// Calls `str::trim`. Trusted: it removes the leading and the trailing
/// characters with the property `White_Space`, and no others.
#[verifier::external_body]
pub(crate) fn trim(line: &str) -> (rest: &str)
    ensures
        rest@ == trimmed(line@),
{
    line.trim()
}

/// Whether `c` is the letter `lower` in either case.
pub open spec fn is_letter(c: char, lower: char, upper: char) -> bool {
    c == lower || c == upper
}

/// `yes` or `y`, in any mix of cases.
pub open spec fn is_yes(token: Seq<char>) -> bool {
    ||| token.len() == 1 && is_letter(token[0], 'y', 'Y')
    ||| token.len() == 3 && is_letter(token[0], 'y', 'Y') && is_letter(token[1], 'e', 'E')
        && is_letter(token[2], 's', 'S')
}

/// `no` or `n`, in any mix of cases, or nothing at all.
pub open spec fn is_no(token: Seq<char>) -> bool {
    ||| token.len() == 0
    ||| token.len() == 1 && is_letter(token[0], 'n', 'N')
    ||| token.len() == 2 && is_letter(token[0], 'n', 'N') && is_letter(token[1], 'o', 'O')
}

/// What an answer amounts to: consent, refusal, or nothing that is
/// understood, in which case the question is to be asked again.
pub open spec fn verdict(token: Seq<char>) -> Option<Result<(), BinstallError>> {
    if is_yes(token) {
        Some(Ok(()))
    } else if is_no(token) {
        Some(Err(BinstallError::UserAbort))
    } else {
        None
    }
}

/// Judges an answer that has already been trimmed.
pub fn judge(token: &str) -> (judged: Option<Result<(), BinstallError>>)
    ensures
        judged == verdict(token@),
{
    let n = token.unicode_len();
    if n == 0 {
        return Some(Err(BinstallError::UserAbort));
    }
    if n > 3 {
        return None;
    }
    let first = token.get_char(0);
    if n == 1 {
        if first == 'y' || first == 'Y' {
            Some(Ok(()))
        } else if first == 'n' || first == 'N' {
            Some(Err(BinstallError::UserAbort))
        } else {
            None
        }
    } else if n == 2 {
        let second = token.get_char(1);
        if (first == 'n' || first == 'N') && (second == 'o' || second == 'O') {
            Some(Err(BinstallError::UserAbort))
        } else {
            None
        }
    } else {
        let second = token.get_char(1);
        let third = token.get_char(2);
        if (first == 'y' || first == 'Y') && (second == 'e' || second == 'E') && (third == 's'
            || third == 'S') {
            Some(Ok(()))
        } else {
            None
        }
    }
}

/// Judges one line read in answer to the question whether to continue:
/// `Some(Ok(()))` for yes, the user-abort error for no or an empty line,
/// `None` where the line is not understood and the question is to be put
/// again. Whitespace around the answer does not count.
pub fn confirm(line: &str) -> (judged: Option<Result<(), BinstallError>>)
    ensures
        judged == verdict(trimmed(line@)),
{
    judge(trim(line))
}

} // verus!
