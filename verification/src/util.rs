//! Small utilities: turning a display name into a url slug.

use vstd::prelude::*;

use crate::collaborators::push_char;
use crate::user::lemma_filter_push;

verus! {

/// A character the slug keeps: an ASCII letter or digit, or a space.
pub open spec fn url_kept(c: char) -> bool {
    crate::text::ascii_alphanumeric(c) || c == ' '
}

/// How a kept character appears in the slug: spaces become underscores,
/// ASCII capitals become lowercase, the rest stay.
pub open spec fn url_mapped(c: char) -> char {
    if c == ' ' {
        '_'
    } else if 65 <= c as u32 <= 90 {
        ((c as u8 + 32) as char)
    } else {
        c
    }
}

/// The url slug of a string.
pub open spec fn spec_string_to_url(s: Seq<char>) -> Seq<char> {
    s.filter(|c: char| url_kept(c)).map_values(|c: char| url_mapped(c))
}

/// Turns a display name into a url slug: drops everything but ASCII
/// letters, digits and spaces, replaces spaces with underscores, and
/// lowercases ASCII capitals.
pub fn string_to_url(string: &str) -> (r: String)
    ensures
        r@ == spec_string_to_url(string@),
{
    let len = string.unicode_len();
    let mut out = String::new();
    let mut i: usize = 0;
    proof {
        assert(string@.subrange(0, 0).filter(|c: char| url_kept(c)) =~= Seq::<char>::empty()) by {
            reveal(Seq::filter);
        }
        assert(out@ =~= string@.subrange(0, 0).filter(|c: char| url_kept(c)).map_values(
            |c: char| url_mapped(c),
        ));
    }
    while i < len
        invariant
            len == string@.len(),
            i <= len,
            out@ == string@.subrange(0, i as int).filter(|c: char| url_kept(c)).map_values(
                (|c: char| url_mapped(c)),
            ),
        decreases len - i,
    {
        let c = string.get_char(i);
        proof {
            lemma_filter_push(string@.subrange(0, i as int), |c: char| url_kept(c), c);
            assert(string@.subrange(0, i as int).push(c) =~= string@.subrange(0, i + 1));
        }
        let v = c as u32;
        let kept = (48 <= v && v <= 57) || (65 <= v && v <= 90) || (97 <= v && v <= 122) || c
            == ' ';
        if kept {
            let mapped = if c == ' ' {
                '_'
            } else if 65 <= v && v <= 90 {
                ((c as u8) + 32) as char
            } else {
                c
            };
            push_char(&mut out, mapped);
            proof {
                assert(out@ =~= string@.subrange(0, i + 1).filter(|c: char| url_kept(c)).map_values(
                    |c: char| url_mapped(c),
                ));
            }
        } else {
            proof {
                assert(out@ =~= string@.subrange(0, i + 1).filter(|c: char| url_kept(c)).map_values(
                    |c: char| url_mapped(c),
                ));
            }
        }
        i = i + 1;
    }
    proof {
        assert(string@.subrange(0, string@.len() as int) =~= string@);
    }
    out
}

} // verus!
