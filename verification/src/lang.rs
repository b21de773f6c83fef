//! Locale-tag normalisation for the localisation layer.

use vstd::prelude::*;

verus! {

use vstd::string::*;
use crate::config::spec_split_head;
use crate::text::{find_sub, lemma_find_unique, push_char, spec_find, spec_trim, trim_ascii};

/// A POSIX locale value as a language tag: trimmed, the codeset after `.`
/// dropped, underscores turned into hyphens; `None` for an empty value.
pub open spec fn spec_normalize_lang(value: Seq<char>) -> Option<Seq<char>> {
    let t = spec_trim(value);
    if t.len() == 0 {
        None
    } else {
        Some(
            spec_split_head(t, seq!['.']).map_values(
                |c: char|
                    if c == '_' {
                        '-'
                    } else {
                        c
                    },
            ),
        )
    }
}

/// Normalises a `LANG`-style value (`en_US.UTF-8`) into a language tag
/// (`en-US`).
pub fn normalize_lang(value: &str) -> (r: Option<String>)
    ensures
        match r {
            Some(lang) => spec_normalize_lang(value@) == Some(lang@),
            None => spec_normalize_lang(value@) is None,
        },
{
    proof {
        reveal_strlit(".");
        assert("."@ =~= seq!['.']);
    }
    let trimmed = trim_ascii(value);
    let t = trimmed.as_str();
    let tlen: usize = t.unicode_len();
    if tlen == 0 {
        return None;
    }
    let head_end = match find_sub(t, ".") {
        Some(i) => {
            proof {
                lemma_find_unique(t@, seq!['.'], i as int);
            }
            i
        },
        None => {
            proof {
                assert(spec_find(t@, seq!['.']) is None);
            }
            tlen
        },
    };
    let ghost head = spec_split_head(t@, seq!['.']);
    let mut out = String::new();
    let mut i: usize = 0;
    while i < head_end
        invariant
            i <= head_end,
            head_end <= tlen,
            tlen == t@.len(),
            head == t@.subrange(0, head_end as int),
            out@ =~= head.subrange(0, i as int).map_values(
                |c: char|
                    if c == '_' {
                        '-'
                    } else {
                        c
                    },
            ),
        decreases head_end - i,
    {
        let c = t.get_char(i);
        if c == '_' {
            push_char(&mut out, '-');
        } else {
            push_char(&mut out, c);
        }
        proof {
            assert(head.subrange(0, i + 1) =~= head.subrange(0, i as int).push(head[i as int]));
            assert(head.subrange(0, i + 1).map_values(
                |c: char|
                    if c == '_' {
                        '-'
                    } else {
                        c
                    },
            ) =~= head.subrange(0, i as int).map_values(
                |c: char|
                    if c == '_' {
                        '-'
                    } else {
                        c
                    },
            ).push(
                if head[i as int] == '_' {
                    '-'
                } else {
                    head[i as int]
                },
            ));
        }
        i = i + 1;
    }
    proof {
        assert(head.subrange(0, head_end as int) =~= head);
    }
    Some(out)
}

} // verus!
