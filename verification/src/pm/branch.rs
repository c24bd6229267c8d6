//! Branch names made from card titles.

use crate::text::{
    alphanumeric, chars_of, is_alphanumeric, lowercase, push_char, strip_end, strip_end_chars,
    strip_start, strip_start_chars, to_lowercase,
};
use vstd::prelude::*;
use vstd::string::*;

verus! {

/// The character as a branch name takes it: letters, numbers and dashes
/// stay, anything else becomes a dash.
pub open spec fn slug_char(c: char) -> char {
    if alphanumeric(c) || c == '-' {
        c
    } else {
        '-'
    }
}

/// `s` with every run of dashes cut down to one dash.
pub open spec fn collapsed(s: Seq<char>) -> Seq<char>
    decreases s.len(),
{
    if s.len() == 0 {
        s
    } else if s.last() == '-' && s.len() >= 2 && s[s.len() - 2] == '-' {
        collapsed(s.drop_last())
    } else {
        collapsed(s.drop_last()).push(s.last())
    }
}

/// `s` with no dash at either end and no two dashes in a row.
pub open spec fn tidy(s: Seq<char>) -> Seq<char> {
    collapsed(strip_end(strip_start(s, '-'), '-'))
}

/// The slug of a text that is already in lowercase: a dash for every
/// character that is neither letter nor number, no dash at either end and
/// no two dashes in a row.
pub open spec fn slug_of(lower: Seq<char>) -> Seq<char> {
    tidy(lower.map_values(|c: char| slug_char(c)))
}

/// The slug of a title: the slug of its lowercase form.
pub open spec fn slug(title: Seq<char>) -> Seq<char> {
    slug_of(lowercase(title))
}

/// The branch name made of characters that are already letters, numbers
/// and dashes: `feature/` and the characters, without the dashes at either
/// end and with one dash for every run of dashes.
pub fn branch_of_dashed(dashed: &Vec<char>) -> (r: String)
    ensures
        r@ == "feature/"@ + tidy(dashed@),
{
    let front = strip_start_chars(dashed, '-');
    let bare = strip_end_chars(&front, '-');
    let mut out = "feature/".to_owned();
    let mut k: usize = 0;
    let mut last_dash = false;
    assert(bare@.take(0) =~= Seq::<char>::empty());
    assert("feature/"@ + Seq::<char>::empty() =~= "feature/"@);
    while k < bare.len()
        invariant
            k <= bare.len(),
            out@ == "feature/"@ + collapsed(bare@.take(k as int)),
            last_dash == (k > 0 && bare@[k - 1] == '-'),
        decreases bare.len() - k,
    {
        let c = bare[k];
        proof {
            assert(bare@.take(k + 1).drop_last() =~= bare@.take(k as int));
            assert(bare@.take(k + 1).last() == c);
            if k > 0 {
                assert(bare@.take(k + 1)[k - 1] == bare@[k - 1]);
            }
        }
        if c == '-' {
            if !last_dash {
                push_char(&mut out, c);
            }
            last_dash = true;
        } else {
            push_char(&mut out, c);
            last_dash = false;
        }
        assert(out@ =~= "feature/"@ + collapsed(bare@.take(k + 1)));
        k += 1;
    }
    assert(bare@.take(k as int) =~= bare@);
    out
}

/// The branch name for a text that is already in lowercase: `feature/` and
/// the text's slug.
pub fn branch_of_lowercase(lower: &str) -> (r: String)
    ensures
        r@ == "feature/"@ + slug_of(lower@),
{
    let lower = chars_of(lower);
    let mut mapped: Vec<char> = Vec::new();
    let mut i: usize = 0;
    while i < lower.len()
        invariant
            i <= lower.len(),
            mapped@ == lower@.take(i as int).map_values(|c: char| slug_char(c)),
        decreases lower.len() - i,
    {
        let c = lower[i];
        if is_alphanumeric(c) || c == '-' {
            mapped.push(c);
        } else {
            mapped.push('-');
        }
        assert(mapped@ =~= lower@.take(i + 1).map_values(|c: char| slug_char(c)));
        i += 1;
    }
    assert(lower@.take(i as int) =~= lower@);
    branch_of_dashed(&mapped)
}

/// The name of the branch for a card with the given title: `feature/` and
/// the title's slug.
pub fn slugify_branch(title: &str) -> (r: String)
    ensures
        r@ == "feature/"@ + slug(title@),
{
    branch_of_lowercase(to_lowercase(title).as_str())
}

} // verus!
