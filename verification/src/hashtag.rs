//! Hashtag labels: a scan of a body text for `#` followed by one or more
//! word characters, each label lowercased and the list deduplicated,
//! keeping first occurrences in order.

use vstd::prelude::*;

verus! {

/// The characters a hashtag label is made of: ASCII letters, digits and
/// underscore. Other scripts end a label.
pub open spec fn is_word_char(c: char) -> bool {
    ('a' as u32 <= c as u32 && c as u32 <= 'z' as u32) || ('A' as u32 <= c as u32 && c as u32
        <= 'Z' as u32) || ('0' as u32 <= c as u32 && c as u32 <= '9' as u32) || c == '_'
}

/// ASCII lowercasing of a single character.
pub open spec fn lower_char(c: char) -> char {
    if 'A' as u32 <= c as u32 && c as u32 <= 'Z' as u32 {
        ((c as u32 + 32) as u8) as char
    } else {
        c
    }
}

/// Whether position `p` of `s` starts a hashtag: a `#` immediately
/// followed by a word character.
pub open spec fn tag_at(s: Seq<char>, p: int) -> bool {
    0 <= p && p + 1 < s.len() && s[p] == '#' && is_word_char(s[p + 1])
}

/// The exclusive end of the word-character run starting at `j`.
pub open spec fn run_end(s: Seq<char>, j: int) -> int
    recommends
        0 <= j <= s.len(),
    decreases s.len() - j when 0 <= j <= s.len()
{
    if j >= s.len() || !is_word_char(s[j]) {
        j
    } else {
        run_end(s, j + 1)
    }
}

/// The lowercased label of the hashtag starting at `p` (the run of word
/// characters right after the `#`).
pub open spec fn label_at(s: Seq<char>, p: int) -> Seq<char> {
    s.subrange(p + 1, run_end(s, p + 1)).map_values(|c: char| lower_char(c))
}

/// The labels of all hashtags starting before position `i`, in order of
/// occurrence, duplicates included.
pub open spec fn raw_labels_upto(s: Seq<char>, i: int) -> Seq<Seq<char>>
    decreases i when i >= 0
{
    if i <= 0 {
        Seq::empty()
    } else {
        raw_labels_upto(s, i - 1) + if tag_at(s, i - 1) {
            seq![label_at(s, i - 1)]
        } else {
            Seq::empty()
        }
    }
}

/// All hashtag labels of `s`, in order, duplicates included.
pub open spec fn raw_labels(s: Seq<char>) -> Seq<Seq<char>> {
    raw_labels_upto(s, s.len() as int)
}

/// Keep only the first occurrence of each element, in order.
pub open spec fn dedup_first<A>(s: Seq<A>) -> Seq<A>
    decreases s.len(),
{
    if s.len() == 0 {
        Seq::empty()
    } else {
        let d = dedup_first(s.drop_last());
        if s.drop_last().contains(s.last()) {
            d
        } else {
            d.push(s.last())
        }
    }
}

/// The hashtag labels of a body text: every `#`-word occurrence,
/// lowercased, first occurrences only.
pub open spec fn spec_hashtags(s: Seq<char>) -> Seq<Seq<char>> {
    dedup_first(raw_labels(s))
}

/// Any position that bounds a word run from `j0` the same way is that
/// run's end.
pub proof fn lemma_run_end_unique(s: Seq<char>, j0: int, j: int)
    requires
        0 <= j0 <= j <= s.len(),
        forall|k: int| j0 <= k < j ==> is_word_char(s[k]),
        j == s.len() || !is_word_char(s[j]),
    ensures
        run_end(s, j0) == j,
    decreases j - j0,
{
    if j0 < j {
        lemma_run_end_unique(s, j0 + 1, j);
    }
}

/// Deduplication keeps membership and leaves no duplicates.
pub proof fn lemma_dedup_first<A>(s: Seq<A>)
    ensures
        dedup_first(s).no_duplicates(),
        forall|x: A| #[trigger] dedup_first(s).contains(x) <==> s.contains(x),
    decreases s.len(),
{
    broadcast use vstd::seq_lib::group_seq_properties;

    if s.len() == 0 {
    } else {
        let d = dedup_first(s.drop_last());
        lemma_dedup_first(s.drop_last());
        assert forall|x: A| s.contains(x) implies #[trigger] dedup_first(s).contains(x) by {
            let w = choose|w: int| 0 <= w < s.len() && s[w] == x;
            if w < s.len() - 1 {
                assert(s.drop_last()[w] == x);
                assert(s.drop_last().contains(x));
                assert(d.contains(x));
                let v = choose|v: int| 0 <= v < d.len() && d[v] == x;
                assert(dedup_first(s)[v] == x);
            } else {
                assert(x == s.last());
                if s.drop_last().contains(x) {
                    assert(d.contains(x));
                    let v = choose|v: int| 0 <= v < d.len() && d[v] == x;
                    assert(dedup_first(s)[v] == x);
                } else {
                    assert(dedup_first(s).last() == x);
                }
            }
        }
        assert forall|x: A| #[trigger] dedup_first(s).contains(x) implies s.contains(x) by {
            if d.contains(x) {
                let w = choose|w: int| 0 <= w < s.drop_last().len() && s.drop_last()[w] == x;
                assert(s[w] == x);
            } else {
                assert(x == s.last());
            }
        }
        if !s.drop_last().contains(s.last()) {
            assert(!d.contains(s.last()));
            assert(dedup_first(s) == d.push(s.last()));
            assert forall|i: int, j: int|
                0 <= i < dedup_first(s).len() && 0 <= j < dedup_first(s).len() && i
                    != j implies dedup_first(s)[i] != dedup_first(s)[j] by {
                if i < d.len() && j < d.len() {
                } else {
                    let k = if i < d.len() {
                        i
                    } else {
                        j
                    };
                    if dedup_first(s)[k] == s.last() {
                        assert(d[k] == s.last());
                        assert(d.contains(s.last()));
                    }
                }
            }
        }
    }
}

/// Deduplication over one more element, phrased for a forward scan.
pub proof fn lemma_dedup_first_push<A>(s: Seq<A>, x: A)
    ensures
        dedup_first(s.push(x)) == if s.contains(x) {
            dedup_first(s)
        } else {
            dedup_first(s).push(x)
        },
{
    assert(s.push(x).drop_last() =~= s);
    assert(s.push(x).last() == x);
}

/// Exec mirror of [`is_word_char`].
fn word_char(c: char) -> (r: bool)
    ensures
        r == is_word_char(c),
{
    ('a' as u32 <= c as u32 && c as u32 <= 'z' as u32) || ('A' as u32 <= c as u32 && c as u32
        <= 'Z' as u32) || ('0' as u32 <= c as u32 && c as u32 <= '9' as u32) || c == '_'
}

/// Exec mirror of [`lower_char`].
fn to_lower(c: char) -> (r: char)
    ensures
        r == lower_char(c),
{
    if 'A' as u32 <= c as u32 && c as u32 <= 'Z' as u32 {
        ((c as u32 + 32) as u8) as char
    } else {
        c
    }
}

/// Collect a character vector into a string.
///
/// Relies on String's FromIterator implementation: the string holds
/// exactly the given characters, in order.
#[verifier::external_body]
fn chars_to_string(chars: &Vec<char>) -> (r: String)
    ensures
        r@ == chars@,
{
    chars.iter().collect()
}

/// Whether `needle` is already among `labels`.
fn contains_label(labels: &Vec<String>, needle: &String) -> (r: bool)
    ensures
        r == labels.deep_view().contains(needle@),
{
    let n = labels.len();
    let mut k: usize = 0;
    while k < n
        invariant
            n == labels.len(),
            0 <= k <= n,
            forall|m: int| 0 <= m < k ==> labels.deep_view()[m] != needle@,
        decreases n - k,
    {
        if labels[k] == *needle {
            assert(labels.deep_view()[k as int] == needle@);
            return true;
        }
        k += 1;
    }
    assert(forall|m: int| 0 <= m < labels.deep_view().len() ==> labels.deep_view()[m] != needle@);
    false
}

/// Extract the hashtag labels of a body text: each `#` followed by word
/// characters yields the lowercased run, and only the first occurrence
/// of each label is kept.
pub fn extract_hashtags(body: &str) -> (r: Vec<String>)
    ensures
        r.deep_view() == spec_hashtags(body@),
        r.deep_view().no_duplicates(),
{
    let ghost s = body@;
    let n = body.unicode_len();
    let mut labels: Vec<String> = Vec::new();
    let mut i: usize = 0;
    while i < n
        invariant
            n == s.len(),
            s == body@,
            0 <= i <= n,
            labels.deep_view() == dedup_first(raw_labels_upto(s, i as int)),
        decreases n - i,
    {
        let ghost labels_before = labels.deep_view();
        if body.get_char(i) == '#' && i + 1 < n && word_char(body.get_char(i + 1)) {
            assert(tag_at(s, i as int));
            // Collect the lowercased word run after the '#'.
            let mut j = i + 1;
            let mut chars: Vec<char> = Vec::new();
            while j < n && word_char(body.get_char(j))
                invariant
                    n == s.len(),
                    s == body@,
                    i + 1 <= j <= n,
                    forall|k: int| i + 1 <= k < j ==> is_word_char(s[k]),
                    chars@ == s.subrange(i + 1, j as int).map_values(|c: char| lower_char(c)),
                decreases n - j,
            {
                let c = to_lower(body.get_char(j));
                chars.push(c);
                proof {
                    assert(chars@ =~= s.subrange(i + 1, j + 1 as int).map_values(
                        |c: char| lower_char(c),
                    ));
                }
                j += 1;
            }
            proof {
                lemma_run_end_unique(s, i + 1 as int, j as int);
            }
            let label = chars_to_string(&chars);
            assert(label@ == label_at(s, i as int));
            if !contains_label(&labels, &label) {
                proof {
                    lemma_dedup_first(raw_labels_upto(s, i as int));
                }
                labels.push(label);
                proof {
                    assert(labels.deep_view() =~= labels_before.push(label@));
                }
            } else {
                proof {
                    lemma_dedup_first(raw_labels_upto(s, i as int));
                }
            }
            proof {
                let raw_prev = raw_labels_upto(s, i as int);
                assert(raw_labels_upto(s, i + 1 as int) =~= raw_prev.push(label_at(s, i as int)));
                lemma_dedup_first_push(raw_prev, label_at(s, i as int));
            }
        } else {
            proof {
                assert(!tag_at(s, i as int));
                assert(raw_labels_upto(s, i + 1 as int) =~= raw_labels_upto(s, i as int));
            }
        }
        i += 1;
    }
    proof {
        lemma_dedup_first(raw_labels(s));
    }
    labels
}

} // verus!
