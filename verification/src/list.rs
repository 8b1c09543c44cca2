//! Configuration-list parsing: a delimiter-noisy configuration string is
//! split into its maximal runs of non-separator characters, which collapses
//! consecutive separators and drops leading/trailing ones.

use vstd::prelude::*;

verus! {

/// The separator characters a configuration list may mix freely.
pub open spec fn is_sep_char(c: char) -> bool {
    c == ',' || c == '\t' || c == '"' || c == '\'' || c == '\r' || c == '\n' || c == '|'
}

/// The entries of `s`, given that the characters of `cur` directly precede
/// `s` inside the current entry: scans left to right, closing the open entry
/// at each separator and discarding empty ones.
pub open spec fn tokens_from(s: Seq<char>, cur: Seq<char>) -> Seq<Seq<char>>
    decreases s.len(),
{
    if s.len() == 0 {
        if cur.len() == 0 {
            Seq::empty()
        } else {
            seq![cur]
        }
    } else if is_sep_char(s[0]) {
        if cur.len() == 0 {
            tokens_from(s.drop_first(), Seq::empty())
        } else {
            seq![cur] + tokens_from(s.drop_first(), Seq::empty())
        }
    } else {
        tokens_from(s.drop_first(), cur.push(s[0]))
    }
}

/// The ordered entries of a configuration-list string: its maximal non-empty
/// runs of non-separator characters.
pub open spec fn tokens_of(s: Seq<char>) -> Seq<Seq<char>> {
    tokens_from(s, Seq::empty())
}

/// An emitted entry: non-empty and free of separator characters.
pub open spec fn entry_well_formed(t: Seq<char>) -> bool {
    t.len() > 0 && forall|j: int| 0 <= j < t.len() ==> !is_sep_char(t[j])
}

pub fn is_sep(c: char) -> (r: bool)
    ensures
        r == is_sep_char(c),
{
    c == ',' || c == '\t' || c == '"' || c == '\'' || c == '\r' || c == '\n' || c == '|'
}

/// Splits a configuration string on any mix of separator characters,
/// collapsing runs of separators and dropping empty entries.
pub fn parse_env_list(env_value: &str) -> (r: Vec<String>)
    ensures
        r.deep_view() == tokens_of(env_value@),
{
    let len = env_value.unicode_len();
    let mut out: Vec<String> = Vec::new();
    let mut cur = String::new();
    let mut i: usize = 0;
    proof {
        assert(env_value@.skip(0) =~= env_value@);
        assert(out.deep_view() =~= Seq::<Seq<char>>::empty());
        assert(out.deep_view() + tokens_from(env_value@.skip(0), cur@) =~= tokens_of(
            env_value@,
        ));
    }
    while i < len
        invariant
            len == env_value@.len(),
            i <= len,
            out.deep_view() + tokens_from(env_value@.skip(i as int), cur@) == tokens_of(
                env_value@,
            ),
        decreases len - i,
    {
        let ghost rest = env_value@.skip(i as int);
        proof {
            assert(rest[0] == env_value@[i as int]);
            assert(rest.drop_first() =~= env_value@.skip(i as int + 1));
        }
        let c = env_value.get_char(i);
        if is_sep(c) {
            if !cur.as_str().is_empty() {
                let ghost old_out = out.deep_view();
                let ghost old_cur = cur@;
                out.push(cur);
                cur = String::new();
                proof {
                    assert(out.deep_view() =~= old_out.push(old_cur));
                    assert(old_out.push(old_cur) + tokens_from(rest.drop_first(), Seq::empty())
                        =~= old_out + (seq![old_cur] + tokens_from(
                        rest.drop_first(),
                        Seq::empty(),
                    )));
                }
            } else {
                proof {
                    assert(cur@ =~= Seq::<char>::empty());
                }
            }
        } else {
            cur.push(c);
        }
        i += 1;
    }
    proof {
        assert(env_value@.skip(len as int) =~= Seq::<char>::empty());
    }
    if !cur.as_str().is_empty() {
        let ghost old_out = out.deep_view();
        let ghost old_cur = cur@;
        out.push(cur);
        proof {
            assert(out.deep_view() =~= old_out.push(old_cur));
            assert(old_out.push(old_cur) =~= old_out + seq![old_cur]);
        }
    } else {
        proof {
            assert(cur@ =~= Seq::<char>::empty());
            assert(out.deep_view() + Seq::<Seq<char>>::empty() =~= out.deep_view());
        }
    }
    out
}

proof fn lemma_tokens_from_well_formed(s: Seq<char>, cur: Seq<char>)
    requires
        forall|j: int| 0 <= j < cur.len() ==> !is_sep_char(cur[j]),
    ensures
        forall|k: int|
            0 <= k < tokens_from(s, cur).len() ==> entry_well_formed(
                #[trigger] tokens_from(s, cur)[k],
            ),
    decreases s.len(),
{
    if s.len() == 0 {
        if cur.len() > 0 {
            assert forall|k: int|
                0 <= k < tokens_from(s, cur).len() implies entry_well_formed(
                #[trigger] tokens_from(s, cur)[k],
            ) by {
                assert(tokens_from(s, cur) =~= seq![cur]);
                assert(tokens_from(s, cur)[k] == cur);
            }
        }
    } else if is_sep_char(s[0]) {
        lemma_tokens_from_well_formed(s.drop_first(), Seq::empty());
        let rec = tokens_from(s.drop_first(), Seq::empty());
        if cur.len() > 0 {
            assert forall|k: int|
                0 <= k < tokens_from(s, cur).len() implies entry_well_formed(
                #[trigger] tokens_from(s, cur)[k],
            ) by {
                if k == 0 {
                    assert(tokens_from(s, cur)[0] == cur);
                } else {
                    assert(tokens_from(s, cur)[k] == rec[k - 1]);
                    assert(entry_well_formed(rec[k - 1]));
                }
            }
        } else {
            assert forall|k: int|
                0 <= k < tokens_from(s, cur).len() implies entry_well_formed(
                #[trigger] tokens_from(s, cur)[k],
            ) by {
                assert(tokens_from(s, cur)[k] == rec[k]);
                assert(entry_well_formed(rec[k]));
            }
        }
    } else {
        let cur2 = cur.push(s[0]);
        assert forall|j: int| 0 <= j < cur2.len() implies !is_sep_char(cur2[j]) by {
            if j < cur.len() {
                assert(cur2[j] == cur[j]);
            } else {
                assert(cur2[j] == s[0]);
            }
        }
        lemma_tokens_from_well_formed(s.drop_first(), cur2);
        let rec = tokens_from(s.drop_first(), cur2);
        assert forall|k: int|
            0 <= k < tokens_from(s, cur).len() implies entry_well_formed(
            #[trigger] tokens_from(s, cur)[k],
        ) by {
            assert(tokens_from(s, cur)[k] == rec[k]);
            assert(entry_well_formed(rec[k]));
        }
    }
}

/// For every configuration-list string, each parsed entry is non-empty and
/// contains no separator character: consecutive separators of any supported
/// kind collapse to a single boundary, and leading/trailing separators are
/// dropped.
pub proof fn lemma_parse_entries_well_formed(s: Seq<char>)
    ensures
        forall|k: int|
            0 <= k < tokens_of(s).len() ==> entry_well_formed(#[trigger] tokens_of(s)[k]),
{
    lemma_tokens_from_well_formed(s, Seq::empty());
}

} // verus!
