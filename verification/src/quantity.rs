//! The quantities of a recipe sheet, scaled by the ingredient multiplier:
//! a quantity splits into the text before its number, the number, and the
//! text after it; the scaled number is written back without trailing zeros.
use vstd::prelude::*;
use crate::outside::{capture_groups, regex_captures};
use crate::text::{to_chars, push_chars};

verus! {

/// The pattern that splits a quantity: a prefix without digits, dots or
/// commas; a number with an optional `.` or `,` decimal part; the rest.
pub const QUANTITY_PATTERN: &'static str = "^([^0-9.,]*)([0-9]+(?:[.,][0-9]+)?)(.*)$";

/// The text of an optional group, empty when the group is missing.
pub open spec fn group_text(groups: Seq<Option<Seq<char>>>, i: int) -> Seq<char> {
    if 0 <= i < groups.len() {
        match groups[i] {
            Some(t) => t,
            None => Seq::empty(),
        }
    } else {
        Seq::empty()
    }
}

/// Every decimal comma written as a dot.
pub open spec fn commas_to_dots(s: Seq<char>) -> Seq<char> {
    s.map_values(|c: char| if c == ',' { '.' } else { c })
}

/// The prefix, the number (with a dot as decimal separator) and the suffix
/// of a quantity, from the groups of a match; none when the number group is
/// missing.
pub open spec fn quantity_parts(groups: Seq<Option<Seq<char>>>) -> Option<(Seq<char>, Seq<char>, Seq<char>)> {
    if groups.len() > 2 && groups[2] is Some {
        Some((group_text(groups, 1), commas_to_dots(groups[2].unwrap()), group_text(groups, 3)))
    } else {
        None
    }
}

fn replace_commas(s: &str) -> (res: String)
    ensures
        res@ == commas_to_dots(s@),
{
    let chars = to_chars(s);
    let mut out: Vec<char> = Vec::new();
    let mut i: usize = 0;
    while i < chars.len()
        invariant
            i <= chars@.len(),
            chars@ == s@,
            out@ == commas_to_dots(s@).take(i as int),
        decreases chars.len() - i,
    {
        let c = chars[i];
        out.push(if c == ',' { '.' } else { c });
        assert(commas_to_dots(s@).take(i + 1) =~= commas_to_dots(s@).take(i as int).push(if c == ',' { '.' } else { c }));
        i += 1;
    }
    assert(commas_to_dots(s@).take(i as int) =~= commas_to_dots(s@));
    let mut res = String::new();
    push_chars(&mut res, &out);
    res
}

fn optional_group(groups: &Vec<Option<String>>, i: usize) -> (res: String)
    ensures
        res@ == group_text(groups.deep_view(), i as int),
{
    if i < groups.len() {
        match &groups[i] {
            Some(t) => t.clone(),
            None => String::new(),
        }
    } else {
        String::new()
    }
}

/// The parts of a quantity from the outcome of matching it: nothing when
/// nothing matched, otherwise the prefix, the number and the suffix.
pub fn quantity_parts_from_groups(groups: Option<Vec<Option<String>>>) -> (res: Option<(String, String, String)>)
    ensures
        match groups {
            Some(g) => match quantity_parts(g.deep_view()) {
                Some((p, n, x)) => res matches Some((rp, rn, rx)) && rp@ == p && rn@ == n && rx@ == x,
                None => res is None,
            },
            None => res is None,
        },
{
    match groups {
        None => None,
        Some(g) => {
            if g.len() > 2 {
                match &g[2] {
                    Some(num) => {
                        let prefix = optional_group(&g, 1);
                        let number = replace_commas(num.as_str());
                        let suffix = optional_group(&g, 3);
                        Some((prefix, number, suffix))
                    },
                    None => None,
                }
            } else {
                None
            }
        },
    }
}

/// Splits a quantity into its prefix, its number (with a dot as decimal
/// separator) and its suffix, as `QUANTITY_PATTERN` matches it.
pub fn split_quantity(input: &str) -> (res: Option<(String, String, String)>)
    ensures
        match regex_captures(QUANTITY_PATTERN@, input@) {
            Some(Some(g)) => match quantity_parts(g) {
                Some((p, n, x)) => res matches Some((rp, rn, rx)) && rp@ == p && rn@ == n && rx@ == x,
                None => res is None,
            },
            _ => res is None,
        },
{
    match capture_groups(QUANTITY_PATTERN, input) {
        Some(groups) => quantity_parts_from_groups(groups),
        None => None,
    }
}

/// The text without the copies of `c` at its end.
pub open spec fn trim_end_char(s: Seq<char>, c: char) -> Seq<char>
    decreases s.len(),
{
    if s.len() > 0 && s.last() == c {
        trim_end_char(s.drop_last(), c)
    } else {
        s
    }
}

fn trim_end(chars: &mut Vec<char>, c: char)
    ensures
        final(chars)@ == trim_end_char(old(chars)@, c),
{
    while chars.len() > 0 && chars[chars.len() - 1] == c
        invariant
            trim_end_char(chars@, c) == trim_end_char(old(chars)@, c),
        decreases chars.len(),
    {
        let ghost before = chars@;
        chars.pop();
        assert(chars@ =~= before.drop_last());
    }
}

/// A scaled quantity: the prefix, the written number without its trailing
/// zeros and then without a trailing dot, and the suffix.
pub fn scaled_quantity_text(prefix: &str, number: &str, suffix: &str) -> (res: String)
    ensures
        res@ == prefix@ + trim_end_char(trim_end_char(number@, '0'), '.') + suffix@,
{
    let mut digits = to_chars(number);
    trim_end(&mut digits, '0');
    trim_end(&mut digits, '.');
    let mut res = prefix.to_owned();
    push_chars(&mut res, &digits);
    res.append(suffix);
    res
}

} // verus!
