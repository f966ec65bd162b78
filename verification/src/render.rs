//! Laya input rendering: the sequence layout, per-option `[MASK]` marker
//! positions, and option/bucket labels.
//!
//! Tokenization is supplied by the caller as a fallible `encode` function; the
//! token layout built from its results is stated exactly by
//! [`spec_assemble`].

use vstd::prelude::*;

use crate::capture::string_views;
use crate::text::{chars_of, extend_chars, replace, replace_chars, string_of};

verus! {

/// The `qtype` value passed to the graph for a `choice` decision.
pub const QTYPE_CHOICE: i64 = 0;

/// The `qtype` value for a `score` decision.
pub const QTYPE_SCORE: i64 = 1;

/// The `qtype` value for a `noul` (yes/no) decision.
pub const QTYPE_NOUL: i64 = 2;

/// Index of `choice` within a checkpoint's per-qtype temperatures.
pub const CHOICE_QTYPE_INDEX: usize = 0;

/// At most this many tokens of an option's text are kept.
pub const OPTION_TOKEN_CAP: usize = 48;

/// Tokenizer ids the renderer needs, looked up once per checkpoint.
#[derive(Debug, Clone, PartialEq, Eq)]
pub struct SpecialIds {
    /// `[CLS]`, the leading sequence token.
    pub cls: i64,
    /// `[SEP]`, the segment separator.
    pub sep: i64,
    /// `[MASK]`, placed once per option to mark its decision slot.
    pub mask: i64,
    /// `[PAD]`, used when batching sequences of different lengths.
    pub pad: i64,
    /// The literal mask token text, scrubbed from user text so it cannot
    /// inject an extra marker.
    pub mask_tok: String,
}

/// A rendered sequence and the positions of its option markers.
#[derive(Debug, Clone, PartialEq, Eq)]
pub struct RenderedSequence {
    /// `input_ids` for a single example, in layout order.
    pub ids: Vec<i64>,
    /// Positions within [`Self::ids`] of each option's `[MASK]` marker.
    pub marker_pos: Vec<i64>,
}

/// One rendered `choice` option: `"<label>: <text>"`, or just the label when
/// the description is empty.
pub open spec fn choice_option(label: Seq<char>, text: Seq<char>) -> Seq<char> {
    if text.len() == 0 {
        label
    } else {
        label + seq![':', ' '] + text
    }
}

/// Render letter-labelled `choice` options the way Laya expects: each
/// `(label, text)` becomes `"<label>: <text>"`, or just `"<label>"` when the
/// description is empty.
pub fn render_choice_options(criteria: &[(String, String)]) -> (r: Vec<String>)
    ensures
        r@.len() == criteria@.len(),
        forall|i: int|
            0 <= i < r@.len() ==> #[trigger] r@[i]@ == choice_option(
                criteria@[i].0@,
                criteria@[i].1@,
            ),
{
    let mut r: Vec<String> = Vec::new();
    let mut k: usize = 0;
    while k < criteria.len()
        invariant
            k <= criteria@.len(),
            r@.len() == k,
            forall|i: int|
                0 <= i < k ==> #[trigger] r@[i]@ == choice_option(criteria@[i].0@, criteria@[i].1@),
        decreases criteria@.len() - k,
    {
        let label = &criteria[k].0;
        let text = &criteria[k].1;
        if text.as_str().is_empty() {
            r.push(label.clone());
        } else {
            let mut v = chars_of(label.as_str());
            extend_chars(&mut v, &[':', ' ']);
            let t = chars_of(text.as_str());
            extend_chars(&mut v, t.as_slice());
            proof {
                assert(seq![':', ' '] =~= [':', ' ']@);
            }
            r.push(string_of(v.as_slice()));
        }
        k += 1;
    }
    r
}

/// The cardinality part of a temperature bucket key.
pub open spec fn bucket_size(options: usize) -> Seq<char> {
    if options <= 2 {
        seq!['2']
    } else if options <= 5 {
        seq!['3', '-', '5']
    } else if options <= 10 {
        seq!['6', '-', '1', '0']
    } else {
        seq!['1', '1', '+']
    }
}

/// The per-cardinality temperature bucket key, e.g. `"choice:3-5"`.
pub fn temp_bucket(qtype_name: &str, options: usize) -> (r: String)
    ensures
        r@ == qtype_name@ + seq![':'] + bucket_size(options),
{
    let mut v = chars_of(qtype_name);
    v.push(':');
    let size: &[char] = if options <= 2 {
        &['2']
    } else if options <= 5 {
        &['3', '-', '5']
    } else if options <= 10 {
        &['6', '-', '1', '0']
    } else {
        &['1', '1', '+']
    };
    proof {
        assert(['2']@ =~= seq!['2']);
        assert(['3', '-', '5']@ =~= seq!['3', '-', '5']);
        assert(['6', '-', '1', '0']@ =~= seq!['6', '-', '1', '0']);
        assert(['1', '1', '+']@ =~= seq!['1', '1', '+']);
    }
    extend_chars(&mut v, size);
    string_of(v.as_slice())
}

// ---------------------------------------------------------------------------
// Sequence layout
// ---------------------------------------------------------------------------

/// `a - b`, or 0 when `b >= a`.
pub open spec fn sat_sub(a: int, b: int) -> int {
    if a > b {
        a - b
    } else {
        0
    }
}

/// The larger of `a` and `b`.
pub open spec fn max_int(a: int, b: int) -> int {
    if a >= b {
        a
    } else {
        b
    }
}

/// The first `n` entries of `s` (all of `s` when it is shorter).
pub open spec fn truncate(s: Seq<i64>, n: int) -> Seq<i64> {
    if n < s.len() {
        s.take(n)
    } else {
        s
    }
}

/// The total number of tokens in `parts`.
pub open spec fn total_len(parts: Seq<Seq<i64>>) -> int
    decreases parts.len(),
{
    if parts.len() == 0 {
        0
    } else {
        total_len(parts.drop_last()) + parts.last().len()
    }
}

/// `parts` concatenated in order.
pub open spec fn concat_all(parts: Seq<Seq<i64>>) -> Seq<i64>
    decreases parts.len(),
{
    if parts.len() == 0 {
        seq![]
    } else {
        concat_all(parts.drop_last()) + parts.last()
    }
}

/// Each option as `[MASK]` followed by at most [`OPTION_TOKEN_CAP`] of its
/// text tokens.
pub open spec fn marked_options(mask: i64, texts: Seq<Seq<i64>>) -> Seq<Seq<i64>> {
    texts.map_values(|t: Seq<i64>| seq![mask] + truncate(t, OPTION_TOKEN_CAP as int))
}

/// The options after budgeting: when fewer than 16 tokens of `head_max_len`
/// would be left for the head, every option is cut to an equal share of
/// `head_max_len - 16` (at least 4 tokens).
pub open spec fn budgeted_options(mask: i64, texts: Seq<Seq<i64>>, head_max_len: int) -> Seq<
    Seq<i64>,
> {
    let marked = marked_options(mask, texts);
    if sat_sub(head_max_len, total_len(marked)) < 16 {
        let per = max_int(sat_sub(head_max_len, 16) / max_int(marked.len() as int, 1), 4);
        marked.map_values(|o: Seq<i64>| truncate(o, per))
    } else {
        marked
    }
}

/// The head tokens kept: the budget left by the options, but at least 8.
pub open spec fn kept_head(head: Seq<i64>, options: Seq<Seq<i64>>, head_max_len: int) -> Seq<
    i64,
> {
    truncate(head, max_int(sat_sub(head_max_len, total_len(options)), 8))
}

/// `[CLS] head [SEP] option0 option1 … [SEP]`.
pub open spec fn layout_body(cls: i64, sep: i64, head: Seq<i64>, options: Seq<Seq<i64>>) -> Seq<
    i64,
> {
    seq![cls] + head + seq![sep] + concat_all(options) + seq![sep]
}

/// A sequence position as stored in `marker_pos` (saturating at `i64::MAX`).
pub open spec fn as_pos(p: int) -> i64 {
    if p <= i64::MAX {
        p as i64
    } else {
        i64::MAX
    }
}

/// The position of every option's marker, in option order.
pub open spec fn marker_positions(head_len: int, options: Seq<Seq<i64>>) -> Seq<i64> {
    Seq::new(options.len(), |i: int| as_pos(head_len + 2 + total_len(options.take(i))))
}

/// The positions of `ps` that are in `0..max_len`, in order.
pub open spec fn positions_below(ps: Seq<i64>, max_len: int) -> Seq<i64>
    decreases ps.len(),
{
    if ps.len() == 0 {
        seq![]
    } else {
        let rest = positions_below(ps.drop_last(), max_len);
        if 0 <= ps.last() < max_len {
            rest.push(ps.last())
        } else {
            rest
        }
    }
}

/// The exact input layout for one typed question, given the tokens of the
/// head text, of each option text and of the state text:
///
/// ```text
/// [CLS] head [SEP] [MASK] opt0 [MASK] opt1 … [SEP] state [SEP]
/// ```
///
/// The state is cut to the room left below `max_len` (keeping one slot for
/// the closing `[SEP]`), the whole sequence to `max_len`, and only markers
/// below `max_len` are reported.
pub open spec fn spec_assemble(
    ids: SpecialIds,
    head: Seq<i64>,
    option_texts: Seq<Seq<i64>>,
    state: Seq<i64>,
    max_len: int,
    head_max_len: int,
) -> (Seq<i64>, Seq<i64>) {
    let options = budgeted_options(ids.mask, option_texts, head_max_len);
    let head_kept = kept_head(head, options, head_max_len);
    let body = layout_body(ids.cls, ids.sep, head_kept, options);
    let room = sat_sub(sat_sub(max_len, body.len() as int), 1);
    let full = body + truncate(state, room) + seq![ids.sep];
    (
        truncate(full, max_len),
        positions_below(marker_positions(head_kept.len() as int, options), max_len),
    )
}


/// The token sequences held by a vector of token vectors.
pub open spec fn token_views(v: Seq<Vec<i64>>) -> Seq<Seq<i64>> {
    v.map_values(|x: Vec<i64>| x@)
}

/// The concatenation of `parts` has their total length.
pub proof fn lemma_concat_len(parts: Seq<Seq<i64>>)
    ensures
        concat_all(parts).len() == total_len(parts),
        total_len(parts) >= 0,
    decreases parts.len(),
{
    if parts.len() > 0 {
        lemma_concat_len(parts.drop_last());
    }
}

/// Taking one more part adds that part's length and tokens.
proof fn lemma_take_one_more(parts: Seq<Seq<i64>>, k: int)
    requires
        0 <= k < parts.len(),
    ensures
        total_len(parts.take(k + 1)) == total_len(parts.take(k)) + parts[k].len(),
        concat_all(parts.take(k + 1)) == concat_all(parts.take(k)) + parts[k],
{
    assert(parts.take(k + 1).drop_last() =~= parts.take(k));
}

/// `s` cut to at most `n` entries.
fn truncate_vec(s: &Vec<i64>, n: usize) -> (r: Vec<i64>)
    ensures
        r@ == truncate(s@, n as int),
{
    let mut r = s.clone();
    r.truncate(n);
    r
}

/// Append `t` to `v`.
fn extend_ids(v: &mut Vec<i64>, t: &Vec<i64>)
    ensures
        final(v)@ == old(v)@ + t@,
{
    let mut k: usize = 0;
    while k < t.len()
        invariant
            k <= t@.len(),
            v@ == old(v)@ + t@.subrange(0, k as int),
        decreases t@.len() - k,
    {
        v.push(t[k]);
        assert(t@.subrange(0, k + 1) =~= t@.subrange(0, k as int).push(t@[k as int]));
        k += 1;
    }
    assert(t@.subrange(0, t@.len() as int) =~= t@);
}

/// `a - b`, or 0 when `b >= a`.
fn sat_sub_usize(a: usize, b: usize) -> (r: usize)
    ensures
        r == sat_sub(a as int, b as int),
{
    if a > b {
        a - b
    } else {
        0
    }
}

/// Cut every entry of `options` to at most `n` tokens; returns the cut
/// options and their total length.
fn truncate_all(options: &Vec<Vec<i64>>, n: usize) -> (r: (Vec<Vec<i64>>, usize))
    requires
        total_len(token_views(options@)) <= usize::MAX,
    ensures
        token_views(r.0@) == token_views(options@).map_values(|o: Seq<i64>| truncate(o, n as int)),
        r.1 == total_len(token_views(r.0@)),
        r.1 <= total_len(token_views(options@)),
{
    let ghost src = token_views(options@);
    let ghost goal = src.map_values(|o: Seq<i64>| truncate(o, n as int));
    let mut out: Vec<Vec<i64>> = Vec::new();
    let mut total: usize = 0;
    let mut k: usize = 0;
    assert(src.take(0) =~= Seq::<Seq<i64>>::empty());
    assert(goal.take(0) =~= Seq::<Seq<i64>>::empty());
    while k < options.len()
        invariant
            k <= options@.len(),
            src == token_views(options@),
            goal == src.map_values(|o: Seq<i64>| truncate(o, n as int)),
            total_len(src) <= usize::MAX,
            token_views(out@) == goal.take(k as int),
            total == total_len(goal.take(k as int)),
            total <= total_len(src.take(k as int)),
        decreases options@.len() - k,
    {
        let t = truncate_vec(&options[k], n);
        proof {
            lemma_take_one_more(goal, k as int);
            lemma_take_one_more(src, k as int);
            lemma_total_take_le(src, k + 1);
        }
        total = total + t.len();
        let ghost before = token_views(out@);
        out.push(t);
        assert(token_views(out@) =~= before.push(t@));
        assert(goal.take(k + 1) =~= goal.take(k as int).push(goal[k as int]));
        k += 1;
    }
    assert(goal.take(options@.len() as int) =~= goal);
    assert(src.take(options@.len() as int) =~= src);
    (out, total)
}

/// A prefix of `parts` is no longer in total than all of `parts`.
proof fn lemma_total_take_le(parts: Seq<Seq<i64>>, k: int)
    requires
        0 <= k <= parts.len(),
    ensures
        0 <= total_len(parts.take(k)) <= total_len(parts),
    decreases parts.len() - k,
{
    lemma_concat_len(parts.take(k));
    if k < parts.len() {
        lemma_total_take_le(parts, k + 1);
        lemma_take_one_more(parts, k);
    } else {
        assert(parts.take(k) =~= parts);
    }
}

/// Token `j` of part `i` sits at offset `total_len(parts.take(i)) + j` of
/// the concatenation.
proof fn lemma_concat_index(parts: Seq<Seq<i64>>, i: int, j: int)
    requires
        0 <= i < parts.len(),
        0 <= j < parts[i].len(),
    ensures
        0 <= total_len(parts.take(i)) + j < concat_all(parts).len(),
        concat_all(parts)[total_len(parts.take(i)) + j] == parts[i][j],
    decreases parts.len(),
{
    let n = parts.len();
    let init = parts.drop_last();
    lemma_concat_len(init);
    lemma_concat_len(parts);
    lemma_total_take_le(parts, i);
    if i == n - 1 {
        assert(parts.take(i) =~= init);
    } else {
        lemma_concat_index(init, i, j);
        assert(init.take(i) =~= parts.take(i));
        assert(init[i] == parts[i]);
    }
}

/// Every reported position of `positions_below(ps, max_len)` is one of `ps`
/// and lies in `0..max_len`.
proof fn lemma_positions_below(ps: Seq<i64>, max_len: int)
    ensures
        forall|k: int|
            0 <= k < positions_below(ps, max_len).len() ==> {
                &&& 0 <= #[trigger] positions_below(ps, max_len)[k] < max_len
                &&& exists|i: int| 0 <= i < ps.len() && ps[i] == positions_below(ps, max_len)[k]
            },
    decreases ps.len(),
{
    if ps.len() > 0 {
        let init = ps.drop_last();
        lemma_positions_below(init, max_len);
        let rest = positions_below(init, max_len);
        assert forall|k: int| 0 <= k < positions_below(ps, max_len).len() implies {
            &&& 0 <= #[trigger] positions_below(ps, max_len)[k] < max_len
            &&& exists|i: int| 0 <= i < ps.len() && ps[i] == positions_below(ps, max_len)[k]
        } by {
            if k < rest.len() {
                assert(positions_below(ps, max_len)[k] == rest[k]);
                let i = choose|i: int| 0 <= i < init.len() && init[i] == rest[k];
                assert(ps[i] == init[i]);
            } else {
                assert(positions_below(ps, max_len)[k] == ps.last());
                assert(ps[ps.len() - 1] == ps.last());
            }
        }
    }
}

/// Every option after budgeting still starts with its `[MASK]` marker.
proof fn lemma_budgeted_options_start_with_mask(mask: i64, texts: Seq<Seq<i64>>, head_max_len: int)
    ensures
        budgeted_options(mask, texts, head_max_len).len() == texts.len(),
        forall|i: int|
            0 <= i < texts.len() ==> {
                &&& #[trigger] budgeted_options(mask, texts, head_max_len)[i].len() >= 1
                &&& budgeted_options(mask, texts, head_max_len)[i][0] == mask
            },
{
    let marked = marked_options(mask, texts);
    assert forall|i: int| 0 <= i < texts.len() implies {
        &&& #[trigger] marked[i].len() >= 1
        &&& marked[i][0] == mask
    } by {
        assert(marked[i] == seq![mask] + truncate(texts[i], OPTION_TOKEN_CAP as int));
    }
}

/// Every marker position that the layout reports points at a `[MASK]` token
/// of the laid-out sequence (for a `max_len` that fits a position).
pub proof fn law_markers_point_at_mask(
    ids: SpecialIds,
    head: Seq<i64>,
    option_texts: Seq<Seq<i64>>,
    state: Seq<i64>,
    max_len: int,
    head_max_len: int,
)
    requires
        0 <= max_len <= i64::MAX,
    ensures
        ({
            let (sequence, markers) = spec_assemble(ids, head, option_texts, state, max_len, head_max_len);
            forall|k: int|
                0 <= k < markers.len() ==> {
                    &&& 0 <= #[trigger] markers[k] < sequence.len()
                    &&& sequence[markers[k] as int] == ids.mask
                }
        }),
{
    let options = budgeted_options(ids.mask, option_texts, head_max_len);
    let head_kept = kept_head(head, options, head_max_len);
    let body = layout_body(ids.cls, ids.sep, head_kept, options);
    let room = sat_sub(sat_sub(max_len, body.len() as int), 1);
    let full = body + truncate(state, room) + seq![ids.sep];
    let sequence = truncate(full, max_len);
    let ps = marker_positions(head_kept.len() as int, options);
    let markers = positions_below(ps, max_len);
    lemma_positions_below(ps, max_len);
    lemma_budgeted_options_start_with_mask(ids.mask, option_texts, head_max_len);
    lemma_concat_len(options);
    assert forall|k: int| 0 <= k < markers.len() implies {
        &&& 0 <= #[trigger] markers[k] < sequence.len()
        &&& sequence[markers[k] as int] == ids.mask
    } by {
        let i = choose|i: int| 0 <= i < ps.len() && ps[i] == markers[k];
        let x = head_kept.len() + 2 + total_len(options.take(i));
        lemma_concat_index(options, i, 0);
        lemma_total_take_le(options, i);
        assert(ps[i] == as_pos(x));
        assert(x <= i64::MAX);
        assert(markers[k] == x);
        let c = concat_all(options);
        assert(body == seq![ids.cls] + head_kept + seq![ids.sep] + c + seq![ids.sep]);
        assert(body[x] == c[total_len(options.take(i))]);
        assert(full[x] == body[x]);
        assert(x < max_len);
        assert(sequence[x] == full[x]);
    }
}

/// The positions of `ps` below `m` are a prefix of `ps` when `ps` is
/// non-negative and non-decreasing: the first `c` positions are below `m`
/// and the rest are not.
proof fn lemma_positions_below_prefix(ps: Seq<i64>, m: int) -> (c: int)
    requires
        forall|i: int| 0 <= i < ps.len() ==> 0 <= #[trigger] ps[i],
        forall|i: int, j: int| 0 <= i <= j < ps.len() ==> ps[i] <= ps[j],
    ensures
        0 <= c <= ps.len(),
        positions_below(ps, m) == ps.take(c),
        forall|i: int| 0 <= i < c ==> #[trigger] ps[i] < m,
        forall|i: int| c <= i < ps.len() ==> #[trigger] ps[i] >= m,
    decreases ps.len(),
{
    if ps.len() == 0 {
        assert(ps.take(0) =~= ps);
        0
    } else {
        let init = ps.drop_last();
        assert forall|i: int| 0 <= i < init.len() implies 0 <= #[trigger] init[i] by {
            assert(init[i] == ps[i]);
        }
        assert forall|i: int, j: int| 0 <= i <= j < init.len() implies init[i] <= init[j] by {
            assert(init[i] == ps[i] && init[j] == ps[j]);
        }
        let c0 = lemma_positions_below_prefix(init, m);
        let n = ps.len() - 1;
        if ps.last() < m {
            assert(ps[n] == ps.last());
            if c0 < init.len() {
                assert(init[c0] == ps[c0]);
                assert(ps[c0] <= ps[n]);
            }
            assert(init.take(c0) =~= init);
            assert(ps.take(ps.len() as int) =~= ps);
            assert(init.push(ps.last()) =~= ps);
            assert forall|i: int| 0 <= i < ps.len() implies #[trigger] ps[i] < m by {
                assert(ps[i] <= ps[n]);
            }
            ps.len() as int
        } else {
            assert(ps.take(c0) =~= init.take(c0));
            assert forall|i: int| c0 <= i < ps.len() implies #[trigger] ps[i] >= m by {
                if i < n {
                    assert(init[i] == ps[i]);
                } else {
                    assert(ps[i] == ps.last());
                }
            }
            assert forall|i: int| 0 <= i < c0 implies #[trigger] ps[i] < m by {
                assert(init[i] == ps[i]);
            }
            c0
        }
    }
}

/// A budgeted option is its `[MASK]` marker followed by a prefix of its
/// text's tokens.
proof fn lemma_budgeted_option_is_marked_prefix(mask: i64, texts: Seq<Seq<i64>>, head_max_len: int, i: int)
    requires
        0 <= i < texts.len(),
    ensures
        budgeted_options(mask, texts, head_max_len).len() == texts.len(),
        ({
            let o = budgeted_options(mask, texts, head_max_len)[i];
            &&& 1 <= o.len() <= texts[i].len() + 1
            &&& o[0] == mask
            &&& forall|j: int| 0 <= j < o.len() - 1 ==> o[1 + j] == #[trigger] texts[i][j]
        }),
{
    let marked = marked_options(mask, texts);
    let m = marked[i];
    assert(m == seq![mask] + truncate(texts[i], OPTION_TOKEN_CAP as int));
    assert forall|j: int| 0 <= j < m.len() - 1 implies m[1 + j] == #[trigger] texts[i][j] by {
        assert(m[1 + j] == truncate(texts[i], OPTION_TOKEN_CAP as int)[j]);
    }
    let o = budgeted_options(mask, texts, head_max_len)[i];
    if sat_sub(head_max_len, total_len(marked)) < 16 {
        let per = max_int(sat_sub(head_max_len, 16) / max_int(marked.len() as int, 1), 4);
        assert(o == truncate(m, per));
        assert forall|j: int| 0 <= j < o.len() - 1 implies o[1 + j] == #[trigger] texts[i][j] by {
            assert(o[1 + j] == m[1 + j]);
        }
    }
}

/// Sums of leading parts grow with the number of parts taken.
proof fn lemma_total_take_monotone(parts: Seq<Seq<i64>>, i: int, j: int)
    requires
        0 <= i <= j <= parts.len(),
    ensures
        0 <= total_len(parts.take(i)) <= total_len(parts.take(j)),
{
    lemma_total_take_le(parts.take(j), i);
    assert(parts.take(j).take(i) =~= parts.take(i));
}

/// The tokens of `sequence` after position `p`, for `l` positions (as far
/// as the sequence goes), are the first `l` tokens of `text`.
pub open spec fn followed_by_prefix(sequence: Seq<i64>, p: int, text: Seq<i64>, l: int) -> bool {
    &&& 0 <= l <= text.len()
    &&& forall|j: int| 0 <= j < l && p + 1 + j < sequence.len() ==> sequence[p + 1 + j] == text[j]
}

/// The options are laid out in input order, each behind its own marker:
/// every reported marker `k` is a `[MASK]` token followed by a prefix of
/// option `k`'s tokens, which runs up to the next reported marker, or up to
/// a `[MASK]` when more options follow, or up to the closing `[SEP]` after
/// the last option. So the score read at marker `k` belongs to option `k`.
pub proof fn law_options_follow_their_markers_in_order(
    ids: SpecialIds,
    head: Seq<i64>,
    option_texts: Seq<Seq<i64>>,
    state: Seq<i64>,
    max_len: int,
    head_max_len: int,
)
    requires
        0 <= max_len <= i64::MAX,
    ensures
        ({
            let (sequence, markers) = spec_assemble(ids, head, option_texts, state, max_len, head_max_len);
            &&& markers.len() <= option_texts.len()
            &&& forall|k: int|
                0 <= k < markers.len() ==> {
                    &&& 0 <= #[trigger] markers[k] < sequence.len()
                    &&& sequence[markers[k] as int] == ids.mask
                    &&& exists|l: int|
                        {
                            &&& #[trigger] followed_by_prefix(sequence, markers[k] as int, option_texts[k], l)
                            &&& k + 1 < markers.len() ==> markers[k + 1] == markers[k] + 1 + l
                            &&& (k + 1 < option_texts.len() && markers[k] + 1 + l < sequence.len())
                                ==> sequence[markers[k] + 1 + l] == ids.mask
                            &&& (k + 1 == option_texts.len() && markers[k] + 1 + l < sequence.len())
                                ==> sequence[markers[k] + 1 + l] == ids.sep
                        }
                }
        }),
{
    law_markers_point_at_mask(ids, head, option_texts, state, max_len, head_max_len);
    let options = budgeted_options(ids.mask, option_texts, head_max_len);
    let hk = kept_head(head, options, head_max_len);
    let body = layout_body(ids.cls, ids.sep, hk, options);
    let room = sat_sub(sat_sub(max_len, body.len() as int), 1);
    let full = body + truncate(state, room) + seq![ids.sep];
    let sequence = truncate(full, max_len);
    let ps = marker_positions(hk.len() as int, options);
    let markers = positions_below(ps, max_len);
    let c = concat_all(options);
    lemma_budgeted_options_start_with_mask(ids.mask, option_texts, head_max_len);
    lemma_concat_len(options);
    assert(options.take(options.len() as int) =~= options);
    assert(body == seq![ids.cls] + hk + seq![ids.sep] + c + seq![ids.sep]);
    assert forall|i: int| 0 <= i < ps.len() implies 0 <= #[trigger] ps[i] by {
        lemma_total_take_monotone(options, 0, i);
    }
    assert forall|i: int, j: int| 0 <= i <= j < ps.len() implies ps[i] <= ps[j] by {
        lemma_total_take_monotone(options, i, j);
    }
    let cnt = lemma_positions_below_prefix(ps, max_len);
    assert forall|k: int| #![trigger markers[k]] 0 <= k < markers.len() implies exists|l: int|
        {
            &&& #[trigger] followed_by_prefix(sequence, markers[k] as int, option_texts[k], l)
            &&& k + 1 < markers.len() ==> markers[k + 1] == markers[k] + 1 + l
            &&& (k + 1 < option_texts.len() && markers[k] + 1 + l < sequence.len())
                ==> sequence[markers[k] + 1 + l] == ids.mask
            &&& (k + 1 == option_texts.len() && markers[k] + 1 + l < sequence.len())
                ==> sequence[markers[k] + 1 + l] == ids.sep
        } by {
        lemma_budgeted_option_is_marked_prefix(ids.mask, option_texts, head_max_len, k);
        let o = options[k];
        let l = o.len() - 1;
        let x = hk.len() + 2 + total_len(options.take(k));
        lemma_total_take_monotone(options, k, options.len() as int);
        assert(markers[k] == ps[k]);
        assert(ps[k] < max_len);
        assert(markers[k] == x);
        lemma_take_one_more(options, k);
        assert forall|j: int| 0 <= j < l && markers[k] + 1 + j < sequence.len() implies sequence[markers[k] + 1 + j] == option_texts[k][j] by {
            lemma_concat_index(options, k, 1 + j);
            assert(body[x + 1 + j] == c[total_len(options.take(k)) + 1 + j]);
            assert(full[x + 1 + j] == body[x + 1 + j]);
            assert(sequence[x + 1 + j] == full[x + 1 + j]);
            assert(o[1 + j] == option_texts[k][j]);
        }
        assert(followed_by_prefix(sequence, markers[k] as int, option_texts[k], l));
        let y = x + 1 + l;
        assert(y == hk.len() + 2 + total_len(options.take(k + 1)));
        if k + 1 < markers.len() {
            assert(markers[k + 1] == ps[k + 1]);
            assert(ps[k + 1] < max_len);
            lemma_total_take_monotone(options, k + 1, options.len() as int);
            assert(markers[k + 1] == y);
        }
        if k + 1 < option_texts.len() && y < sequence.len() {
            lemma_concat_index(options, k + 1, 0);
            assert(body[y] == c[total_len(options.take(k + 1))]);
            assert(full[y] == body[y]);
            assert(sequence[y] == full[y]);
        }
        if k + 1 == option_texts.len() && y < sequence.len() {
            assert(options.take(k + 1) =~= options);
            assert(y == body.len() - 1);
            assert(full[y] == body[y]);
            assert(sequence[y] == full[y]);
        }
    }
}

/// A position as stored in `marker_pos`.
fn pos_of(p: usize) -> (r: i64)
    ensures
        r == as_pos(p as int),
{
    if (p as u64) <= (i64::MAX as u64) {
        p as i64
    } else {
        i64::MAX
    }
}

/// Build the sequence laid out by [`spec_assemble`] from the tokens of the
/// head text, of each option text, and of the state text.
pub fn assemble_sequence(
    ids: &SpecialIds,
    head: &Vec<i64>,
    option_texts: &Vec<Vec<i64>>,
    state: &Vec<i64>,
    max_len: usize,
    head_max_len: usize,
) -> (r: RenderedSequence)
    requires
        option_texts@.len() <= usize::MAX / 64,
    ensures
        (r.ids@, r.marker_pos@) == spec_assemble(
            *ids,
            head@,
            token_views(option_texts@),
            state@,
            max_len as int,
            head_max_len as int,
        ),
{
    let n = option_texts.len();
    let ghost texts = token_views(option_texts@);
    let ghost marked = marked_options(ids.mask, texts);
    // Each option: its marker followed by at most OPTION_TOKEN_CAP text tokens.
    let mut opts: Vec<Vec<i64>> = Vec::new();
    let mut total: usize = 0;
    let mut k: usize = 0;
    assert(marked.take(0) =~= Seq::<Seq<i64>>::empty());
    while k < n
        invariant
            n == option_texts@.len(),
            n <= usize::MAX / 64,
            k <= n,
            texts == token_views(option_texts@),
            marked == marked_options(ids.mask, texts),
            token_views(opts@) == marked.take(k as int),
            total == total_len(marked.take(k as int)),
            total <= 49 * k,
        decreases n - k,
    {
        let mut o: Vec<i64> = Vec::new();
        o.push(ids.mask);
        let t = truncate_vec(&option_texts[k], OPTION_TOKEN_CAP);
        extend_ids(&mut o, &t);
        assert(o@ == marked[k as int]);
        proof {
            lemma_take_one_more(marked, k as int);
        }
        total = total + o.len();
        let ghost before = token_views(opts@);
        opts.push(o);
        assert(token_views(opts@) =~= before.push(marked[k as int]));
        assert(marked.take(k + 1) =~= marked.take(k as int).push(marked[k as int]));
        k += 1;
    }
    assert(marked.take(n as int) =~= marked);
    let ghost options = budgeted_options(ids.mask, texts, head_max_len as int);
    let mut budget = sat_sub_usize(head_max_len, total);
    if budget < 16 {
        let count = if n > 1 {
            n
        } else {
            1
        };
        let share = sat_sub_usize(head_max_len, 16) / count;
        let per = if share > 4 {
            share
        } else {
            4
        };
        let (cut, cut_total) = truncate_all(&opts, per);
        opts = cut;
        total = cut_total;
        budget = sat_sub_usize(head_max_len, total);
    }
    assert(token_views(opts@) == options);
    let head_cap = if budget > 8 {
        budget
    } else {
        8
    };
    let head_kept = truncate_vec(head, head_cap);
    let ghost body = layout_body(ids.cls, ids.sep, head_kept@, options);
    let mut sequence: Vec<i64> = Vec::new();
    sequence.push(ids.cls);
    extend_ids(&mut sequence, &head_kept);
    sequence.push(ids.sep);
    let ghost prefix = sequence@;
    assert(prefix =~= seq![ids.cls] + head_kept@ + seq![ids.sep]);
    let mut all_markers: Vec<i64> = Vec::new();
    let ghost markers = marker_positions(head_kept@.len() as int, options);
    let mut i: usize = 0;
    assert(options.take(0) =~= Seq::<Seq<i64>>::empty());
    while i < opts.len()
        invariant
            i <= opts@.len(),
            token_views(opts@) == options,
            prefix.len() == head_kept@.len() + 2,
            markers == marker_positions(head_kept@.len() as int, options),
            sequence@ == prefix + concat_all(options.take(i as int)),
            all_markers@ == markers.take(i as int),
        decreases opts@.len() - i,
    {
        proof {
            lemma_concat_len(options.take(i as int));
            lemma_take_one_more(options, i as int);
        }
        let p = pos_of(sequence.len());
        all_markers.push(p);
        assert(all_markers@ =~= markers.take(i + 1));
        extend_ids(&mut sequence, &opts[i]);
        assert(sequence@ =~= prefix + concat_all(options.take(i + 1)));
        i += 1;
    }
    assert(options.take(opts@.len() as int) =~= options);
    assert(markers.take(opts@.len() as int) =~= markers);
    sequence.push(ids.sep);
    assert(sequence@ =~= body);
    let room = sat_sub_usize(sat_sub_usize(max_len, sequence.len()), 1);
    let state_kept = truncate_vec(state, room);
    extend_ids(&mut sequence, &state_kept);
    sequence.push(ids.sep);
    sequence.truncate(max_len);
    // Keep only the markers that survived the cut.
    let mut marker_pos: Vec<i64> = Vec::new();
    let mut j: usize = 0;
    assert(markers.take(0) =~= Seq::<i64>::empty());
    while j < all_markers.len()
        invariant
            j <= all_markers@.len(),
            all_markers@ == markers,
            marker_pos@ == positions_below(markers.take(j as int), max_len as int),
        decreases all_markers@.len() - j,
    {
        let p = all_markers[j];
        assert(markers.take(j + 1).drop_last() =~= markers.take(j as int));
        assert(markers.take(j + 1).last() == p);
        if p >= 0 && (p as u64) < (max_len as u64) {
            marker_pos.push(p);
        }
        j += 1;
    }
    assert(markers.take(all_markers@.len() as int) =~= markers);
    RenderedSequence { ids: sequence, marker_pos }
}


/// User text with every occurrence of the mask token replaced by a space, so
/// it cannot inject an extra marker.
pub open spec fn scrub(ids: SpecialIds, text: Seq<char>) -> Seq<char> {
    replace(text, ids.mask_tok@, seq![' '])
}

/// The head text tokenized for a question: `"choice question: <instructions>"`.
pub open spec fn head_text(ids: SpecialIds, instructions: Seq<char>) -> Seq<char> {
    "choice question: "@ + scrub(ids, instructions)
}

/// The text tokenized for one rendered option: a space, then the option.
pub open spec fn option_text(ids: SpecialIds, option: Seq<char>) -> Seq<char> {
    seq![' '] + scrub(ids, option)
}

/// `encode` may return `result` for a string holding `text`.
pub open spec fn encoded<F, E>(encode: F, text: Seq<char>, result: Result<Vec<i64>, E>) -> bool where
    F: Fn(&str) -> Result<Vec<i64>, E>,
 {
    exists|t: &str| t@ == text && #[trigger] call_ensures(encode, (t,), result)
}

/// `r` is the layout of [`spec_assemble`] for token results that `encode`
/// may return for the head, each option and the state.
pub open spec fn rendered_from<F, E>(
    encode: F,
    ids: SpecialIds,
    state: Seq<char>,
    instructions: Seq<char>,
    options: Seq<Seq<char>>,
    max_len: int,
    head_max_len: int,
    r: RenderedSequence,
) -> bool where F: Fn(&str) -> Result<Vec<i64>, E> {
    exists|head: Vec<i64>, texts: Seq<Vec<i64>>, st: Vec<i64>|
        #![trigger spec_assemble(ids, head@, token_views(texts), st@, max_len, head_max_len)]
        {
            &&& encoded(encode, head_text(ids, instructions), Ok::<Vec<i64>, E>(head))
            &&& texts.len() == options.len()
            &&& forall|i: int|
                0 <= i < options.len() ==> encoded(
                    encode,
                    option_text(ids, options[i]),
                    Ok::<Vec<i64>, E>(#[trigger] texts[i]),
                )
            &&& encoded(encode, scrub(ids, state), Ok::<Vec<i64>, E>(st))
            &&& (r.ids@, r.marker_pos@) == spec_assemble(
                ids,
                head@,
                token_views(texts),
                st@,
                max_len,
                head_max_len,
            )
        }
}

/// `encode` may return the token lists `texts` for the first `k` option
/// texts, in order.
pub open spec fn options_encoded<F, E>(
    encode: F,
    ids: SpecialIds,
    options: Seq<Seq<char>>,
    k: int,
    texts: Seq<Vec<i64>>,
) -> bool where F: Fn(&str) -> Result<Vec<i64>, E> {
    &&& 0 <= k <= options.len()
    &&& texts.len() == k
    &&& forall|i: int|
        0 <= i < k ==> encoded(encode, option_text(ids, options[i]), Ok::<Vec<i64>, E>(#[trigger] texts[i]))
}

/// `e` is the error of the first failing call of `encode`, the texts being
/// tokenized in order: the head, then each option, then the state. Either
/// the head failed with `e`; or the head and the options before the `k`-th
/// were tokenized and the `k`-th failed with `e`; or the head and every
/// option were tokenized and the state failed with `e`.
pub open spec fn failed_with<F, E>(
    encode: F,
    ids: SpecialIds,
    state: Seq<char>,
    instructions: Seq<char>,
    options: Seq<Seq<char>>,
    e: E,
) -> bool where F: Fn(&str) -> Result<Vec<i64>, E> {
    ||| encoded(encode, head_text(ids, instructions), Err::<Vec<i64>, E>(e))
    ||| exists|head: Vec<i64>, k: int, texts: Seq<Vec<i64>>|
        #![trigger options_encoded::<F, E>(encode, ids, options, k, texts), encoded(encode, head_text(ids, instructions), Ok::<Vec<i64>, E>(head))]
        {
            &&& encoded(encode, head_text(ids, instructions), Ok::<Vec<i64>, E>(head))
            &&& options_encoded::<F, E>(encode, ids, options, k, texts)
            &&& if k < options.len() {
                encoded(encode, option_text(ids, options[k]), Err::<Vec<i64>, E>(e))
            } else {
                encoded(encode, scrub(ids, state), Err::<Vec<i64>, E>(e))
            }
        }
}

/// Tokenize `text` with `encode`.
fn encode_chars<F, E>(encode: &F, text: &[char]) -> (r: Result<Vec<i64>, E>) where
    F: Fn(&str) -> Result<Vec<i64>, E>,

    requires
        forall|t: &str| call_requires(*encode, (t,)),
    ensures
        encoded(*encode, text@, r),
{
    let s = string_of(text);
    let t = s.as_str();
    let r = encode(t);
    assert(call_ensures(*encode, (t,), r));
    r
}

/// Build the model input sequence for one typed question:
///
/// ```text
/// [CLS] choice question: <instructions> [SEP] [MASK] opt0 [MASK] opt1 … [SEP] state [SEP]
/// ```
///
/// `encode` is a fallible tokenizer; the first error it returns is returned.
/// `state` is the already-serialized state text (`"{}"` for an empty state).
pub fn build_sequence<F, E>(
    encode: F,
    ids: &SpecialIds,
    state: &str,
    instructions: &str,
    options: &[String],
    max_len: usize,
    head_max_len: usize,
) -> (r: Result<RenderedSequence, E>) where F: Fn(&str) -> Result<Vec<i64>, E>
    requires
        forall|t: &str| call_requires(encode, (t,)),
        options@.len() <= usize::MAX / 64,
    ensures
        match r {
            Ok(rendered) => rendered_from(
                encode,
                *ids,
                state@,
                instructions@,
                string_views(options@),
                max_len as int,
                head_max_len as int,
                rendered,
            ),
            Err(e) => failed_with(
                encode,
                *ids,
                state@,
                instructions@,
                string_views(options@),
                e,
            ),
        },
{
    let mask = chars_of(ids.mask_tok.as_str());
    let space: [char; 1] = [' '];
    assert(space@ =~= seq![' ']);
    let ghost opts = string_views(options@);

    let instr = chars_of(instructions);
    let scrubbed = replace_chars(instr.as_slice(), mask.as_slice(), &space);
    let mut head_chars = chars_of("choice question: ");
    extend_chars(&mut head_chars, scrubbed.as_slice());
    let head = match encode_chars(&encode, head_chars.as_slice()) {
        Ok(h) => h,
        Err(e) => return Err(e),
    };

    let mut texts: Vec<Vec<i64>> = Vec::new();
    let mut k: usize = 0;
    while k < options.len()
        invariant
            k <= options@.len(),
            options@.len() <= usize::MAX / 64,
            forall|t: &str| call_requires(encode, (t,)),
            mask@ == ids.mask_tok@,
            space@ == seq![' '],
            opts == string_views(options@),
            texts@.len() == k,
            forall|i: int|
                0 <= i < k ==> encoded(
                    encode,
                    option_text(*ids, opts[i]),
                    Ok::<Vec<i64>, E>(#[trigger] texts@[i]),
                ),
            encoded(encode, head_text(*ids, instructions@), Ok::<Vec<i64>, E>(head)),
        decreases options@.len() - k,
    {
        let oc = chars_of(options[k].as_str());
        let sc = replace_chars(oc.as_slice(), mask.as_slice(), &space);
        let mut text: Vec<char> = Vec::new();
        text.push(' ');
        extend_chars(&mut text, sc.as_slice());
        assert(text@ =~= option_text(*ids, opts[k as int]));
        match encode_chars(&encode, text.as_slice()) {
            Ok(v) => {
                texts.push(v);
            },
            Err(e) => {
                assert(encoded(encode, option_text(*ids, opts[k as int]), Err::<Vec<i64>, E>(e)));
                assert(options_encoded::<F, E>(encode, *ids, opts, k as int, texts@));
                return Err(e);
            },
        }
        k += 1;
    }

    let sc = chars_of(state);
    let st_chars = replace_chars(sc.as_slice(), mask.as_slice(), &space);
    let st = match encode_chars(&encode, st_chars.as_slice()) {
        Ok(v) => v,
        Err(e) => {
            assert(options_encoded::<F, E>(encode, *ids, opts, opts.len() as int, texts@));
            return Err(e);
        },
    };
    let rendered = assemble_sequence(ids, &head, &texts, &st, max_len, head_max_len);
    assert(encoded(encode, head_text(*ids, instructions@), Ok::<Vec<i64>, E>(head)));
    assert(rendered_from(
        encode,
        *ids,
        state@,
        instructions@,
        opts,
        max_len as int,
        head_max_len as int,
        rendered,
    ));
    Ok(rendered)
}

} // verus!
