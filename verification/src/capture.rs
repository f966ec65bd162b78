//! Platform-agnostic capture types: selections, the ordered capture session,
//! and whole-quiz parsing.

use vstd::prelude::*;

use crate::text::{
    blank, chars_of, is_blank, is_trimmed, join, join_chars, lemma_join_starts_with_first,
    lemma_lines_no_newline, lemma_not_blank_has_non_ws, lemma_trim, lemma_trim_keeps_non_ws, lines,
    no_newline, split_lines, string_of, trim, trimmed, views,
};

verus! {

/// A rectangle in logical screen coordinates.
///
/// Reserved: no current resolver fills in a [`Selection::bounds`].
#[derive(Debug, Clone, Copy, PartialEq, Eq, Structural)]
pub struct Rect {
    /// Left edge, in logical pixels.
    pub x: i32,
    /// Top edge, in logical pixels.
    pub y: i32,
    /// Width, in logical pixels.
    pub width: i32,
    /// Height, in logical pixels.
    pub height: i32,
}

/// Where a piece of resolved text came from.
#[derive(Debug, Clone, Copy, PartialEq, Eq, Structural)]
pub enum Source {
    /// The operating system's selection buffer (e.g. PRIMARY on Linux).
    Selection,
    /// Text the user typed into the overlay, not read from the screen.
    Manual,
    /// The accessibility tree.
    Accessibility,
    /// Optical character recognition (reserved).
    Ocr,
}

/// A block of text resolved from the screen.
#[derive(Debug, Clone, PartialEq, Eq)]
pub struct Selection {
    /// The resolved text.
    pub text: String,
    /// Which resolver produced it.
    pub source: Source,
    /// Screen bounds, when the resolver can report them.
    pub bounds: Option<Rect>,
}

/// The role of an item within a decision session.
#[derive(Debug, Clone, Copy, PartialEq, Eq, Structural)]
pub enum Role {
    /// The question being answered.
    Question,
    /// A candidate answer.
    Answer,
}

/// One captured item: the question or an answer, with its resolved text.
#[derive(Debug, Clone, PartialEq, Eq)]
pub struct Item {
    /// Whether this item is the question or an answer.
    pub role: Role,
    /// The resolved selection.
    pub selection: Selection,
}

/// The role the item at position `i` of a session holds.
pub open spec fn role_at(i: int) -> Role {
    if i == 0 {
        Role::Question
    } else {
        Role::Answer
    }
}

/// An ordered capture session: the first item is the question, every later
/// item an answer.
#[derive(Debug, PartialEq, Eq)]
pub struct Session {
    items: Vec<Item>,
}

impl View for Session {
    type V = Seq<Item>;

    closed spec fn view(&self) -> Seq<Item> {
        self.items@
    }
}

impl Session {
    /// Every item holds the role of its position.
    #[verifier::type_invariant]
    closed spec fn roles_follow_order(self) -> bool {
        forall|i: int| 0 <= i < self.items@.len() ==> #[trigger] self.items@[i].role == role_at(i)
    }

    /// Create an empty session.
    pub fn new() -> (s: Self)
        ensures
            s@ == Seq::<Item>::empty(),
    {
        Session { items: Vec::new() }
    }

    /// Append a captured selection and return the role it was assigned: the
    /// first item becomes the question, all others answers.
    pub fn push(&mut self, selection: Selection) -> (role: Role)
        ensures
            role == role_at(old(self)@.len() as int),
            final(self)@ == old(self)@.push(Item { role, selection }),
    {
        proof {
            use_type_invariant(&*self);
        }
        let role = if self.items.len() == 0 {
            Role::Question
        } else {
            Role::Answer
        };
        let mut items = Vec::new();
        std::mem::swap(&mut items, &mut self.items);
        items.push(Item { role, selection });
        self.items = items;
        role
    }

    /// All captured items, in capture order. The first holds the question
    /// role and every later one the answer role.
    pub fn items(&self) -> (r: &[Item])
        ensures
            r@ == self@,
            forall|i: int| 0 <= i < r@.len() ==> #[trigger] r@[i].role == role_at(i),
    {
        proof {
            use_type_invariant(self);
        }
        self.items.as_slice()
    }

    /// The question item, if one has been captured.
    pub fn question(&self) -> (r: Option<&Item>)
        ensures
            match r {
                Some(item) => self@.len() > 0 && *item == self@[0],
                None => self@.len() == 0,
            },
    {
        if self.items.len() > 0 {
            Some(&self.items[0])
        } else {
            None
        }
    }

    /// The answer items (everything after the question).
    pub fn answers(&self) -> (r: &[Item])
        ensures
            r@ == answers_of(self@),
    {
        let n = self.items.len();
        if n == 0 {
            &self.items.as_slice()[0..0]
        } else {
            &self.items.as_slice()[1..n]
        }
    }

    /// The question text, if captured.
    pub fn question_text(&self) -> (r: Option<&str>)
        ensures
            match r {
                Some(text) => self@.len() > 0 && text@ == self@[0].selection.text@,
                None => self@.len() == 0,
            },
    {
        match self.question() {
            Some(item) => Some(item.selection.text.as_str()),
            None => None,
        }
    }

    /// The answer texts, in capture order.
    pub fn answer_texts(&self) -> (r: Vec<String>)
        ensures
            r@.len() == answers_of(self@).len(),
            forall|i: int| 0 <= i < r@.len() ==> #[trigger] r@[i] == answers_of(self@)[i].selection.text,
    {
        let answers = self.answers();
        let mut r: Vec<String> = Vec::new();
        let mut k: usize = 0;
        while k < answers.len()
            invariant
                k <= answers@.len(),
                answers@ == answers_of(self@),
                r@.len() == k,
                forall|i: int| 0 <= i < k ==> #[trigger] r@[i] == answers@[i].selection.text,
            decreases answers@.len() - k,
        {
            r.push(answers[k].selection.text.clone());
            k += 1;
        }
        r
    }

    /// Whether the session has a question and at least one answer, i.e. enough
    /// to run a `choice` decision.
    pub fn is_ready(&self) -> (b: bool)
        ensures
            b == (self@.len() >= 2),
    {
        self.answers().len() != 0
    }

    /// Number of captured items.
    pub fn len(&self) -> (n: usize)
        ensures
            n == self@.len(),
    {
        self.items.len()
    }

    /// Whether nothing has been captured.
    pub fn is_empty(&self) -> (b: bool)
        ensures
            b == (self@.len() == 0),
    {
        self.items.len() == 0
    }

    /// Remove every item.
    pub fn clear(&mut self)
        ensures
            final(self)@ == Seq::<Item>::empty(),
    {
        self.items = Vec::new();
    }
}

impl Default for Session {
    fn default() -> (s: Self)
        ensures
            s@ == Seq::<Item>::empty(),
    {
        Session::new()
    }
}

/// The answers of a session: every item after the first.
pub open spec fn answers_of(items: Seq<Item>) -> Seq<Item> {
    if items.len() == 0 {
        items
    } else {
        items.subrange(1, items.len() as int)
    }
}

/// The trimmed, non-empty entries of `ls`, in order.
pub open spec fn non_empty_trimmed(ls: Seq<Seq<char>>) -> Seq<Seq<char>>
    decreases ls.len(),
{
    if ls.len() == 0 {
        seq![]
    } else {
        let rest = non_empty_trimmed(ls.drop_last());
        let t = trim(ls.last());
        if t.len() > 0 {
            rest.push(t)
        } else {
            rest
        }
    }
}

/// The trimmed, non-empty lines of `text`, in order.
pub open spec fn spec_non_empty_lines(text: Seq<char>) -> Seq<Seq<char>> {
    non_empty_trimmed(lines(text))
}

/// A newline, the separator between the lines of a block.
pub open spec fn newline() -> Seq<char> {
    seq!['\n']
}

/// The blocks finished so far and the lines of the pending block, scanning
/// `ls` from the left.
pub open spec fn blocks_acc(ls: Seq<Seq<char>>) -> (Seq<Seq<char>>, Seq<Seq<char>>)
    decreases ls.len(),
{
    if ls.len() == 0 {
        (seq![], seq![])
    } else {
        let (done, cur) = blocks_acc(ls.drop_last());
        let line = ls.last();
        if is_blank(line) {
            if cur.len() > 0 {
                (done.push(trim(join(cur, newline()))), seq![])
            } else {
                (done, cur)
            }
        } else {
            (done, cur.push(line))
        }
    }
}

/// `text` grouped into blocks separated by one or more blank lines; each
/// block keeps its internal newlines and is trimmed.
pub open spec fn spec_split_blocks(text: Seq<char>) -> Seq<Seq<char>> {
    let (done, cur) = blocks_acc(lines(text));
    if cur.len() > 0 {
        done.push(trim(join(cur, newline())))
    } else {
        done
    }
}

/// The options of a quiz: every non-empty line of each block, in order.
pub open spec fn block_options(blocks: Seq<Seq<char>>) -> Seq<Seq<char>>
    decreases blocks.len(),
{
    if blocks.len() == 0 {
        seq![]
    } else {
        block_options(blocks.drop_last()) + spec_non_empty_lines(blocks.last())
    }
}

/// The question and options of a whole-quiz selection: the first block is the
/// question and each non-empty line after it an option; with no blank line the
/// text falls back to one item per line. `None` unless there is a question and
/// at least one option.
pub open spec fn spec_parse_quiz(text: Seq<char>) -> Option<(Seq<char>, Seq<Seq<char>>)> {
    let blocks = spec_split_blocks(text);
    if blocks.len() < 2 {
        let ls = spec_non_empty_lines(text);
        if ls.len() >= 2 {
            Some((ls[0], ls.subrange(1, ls.len() as int)))
        } else {
            None
        }
    } else {
        let options = block_options(blocks.subrange(1, blocks.len() as int));
        if options.len() == 0 {
            None
        } else {
            Some((blocks[0], options))
        }
    }
}

/// An option as quiz parsing produces it: one non-empty line without
/// surrounding white space.
pub open spec fn is_option_line(o: Seq<char>) -> bool {
    &&& o.len() > 0
    &&& is_trimmed(o)
    &&& no_newline(o)
}

/// The trimmed, non-empty entries of lines without `\n` are option lines.
proof fn lemma_non_empty_trimmed_options(ls: Seq<Seq<char>>)
    requires
        forall|i: int| 0 <= i < ls.len() ==> no_newline(#[trigger] ls[i]),
    ensures
        forall|i: int|
            0 <= i < non_empty_trimmed(ls).len() ==> is_option_line(#[trigger] non_empty_trimmed(ls)[i]),
    decreases ls.len(),
{
    if ls.len() > 0 {
        lemma_non_empty_trimmed_options(ls.drop_last());
        lemma_trim(ls.last());
        let rest = non_empty_trimmed(ls.drop_last());
        assert forall|i: int| 0 <= i < non_empty_trimmed(ls).len() implies is_option_line(
            #[trigger] non_empty_trimmed(ls)[i],
        ) by {
            if i < rest.len() {
                assert(non_empty_trimmed(ls)[i] == rest[i]);
            }
        }
    }
}

/// The non-empty lines of any text are option lines.
proof fn lemma_non_empty_lines_options(text: Seq<char>)
    ensures
        forall|i: int|
            0 <= i < spec_non_empty_lines(text).len() ==> is_option_line(
                #[trigger] spec_non_empty_lines(text)[i],
            ),
{
    lemma_lines_no_newline(text);
    lemma_non_empty_trimmed_options(lines(text));
}

/// The options gathered from any blocks are option lines.
proof fn lemma_block_options(blocks: Seq<Seq<char>>)
    ensures
        forall|i: int| 0 <= i < block_options(blocks).len() ==> is_option_line(#[trigger] block_options(blocks)[i]),
    decreases blocks.len(),
{
    if blocks.len() > 0 {
        lemma_block_options(blocks.drop_last());
        lemma_non_empty_lines_options(blocks.last());
        let a = block_options(blocks.drop_last());
        let b = spec_non_empty_lines(blocks.last());
        assert forall|i: int| 0 <= i < block_options(blocks).len() implies is_option_line(
            #[trigger] block_options(blocks)[i],
        ) by {
            if i < a.len() {
                assert(block_options(blocks)[i] == a[i]);
            } else {
                assert(block_options(blocks)[i] == b[i - a.len()]);
            }
        }
    }
}

/// Every option of a parsed quiz is a single non-empty line with no
/// surrounding white space, whichever way the text was split.
pub proof fn law_quiz_options_are_single_lines(text: Seq<char>)
    ensures
        spec_parse_quiz(text) matches Some((question, options)) ==> options.len() > 0 && forall|i: int|
            0 <= i < options.len() ==> is_option_line(#[trigger] options[i]),
{
    let blocks = spec_split_blocks(text);
    if blocks.len() < 2 {
        lemma_non_empty_lines_options(text);
        let ls = spec_non_empty_lines(text);
        if ls.len() >= 2 {
            let options = ls.subrange(1, ls.len() as int);
            assert forall|i: int| 0 <= i < options.len() implies is_option_line(#[trigger] options[i]) by {
                assert(options[i] == ls[i + 1]);
            }
        }
    } else {
        lemma_block_options(blocks.subrange(1, blocks.len() as int));
    }
}

/// A block made of non-blank lines is non-empty text without surrounding
/// white space.
proof fn lemma_block_of_non_blank_lines(cur: Seq<Seq<char>>)
    requires
        cur.len() > 0,
        forall|i: int| 0 <= i < cur.len() ==> !is_blank(#[trigger] cur[i]),
    ensures
        trim(join(cur, newline())).len() > 0,
        is_trimmed(trim(join(cur, newline()))),
{
    let j = join(cur, newline());
    assert(!is_blank(cur[0]));
    let k = lemma_not_blank_has_non_ws(cur[0]);
    lemma_join_starts_with_first(cur, newline());
    assert(j[k] == j.subrange(0, cur[0].len() as int)[k]);
    lemma_trim_keeps_non_ws(j, k);
    lemma_trim(j);
}

/// Every finished block is non-empty text without surrounding white space,
/// and the pending block holds only non-blank lines.
proof fn lemma_blocks_acc(ls: Seq<Seq<char>>)
    ensures
        forall|i: int|
            0 <= i < blocks_acc(ls).0.len() ==> (#[trigger] blocks_acc(ls).0[i]).len() > 0
                && is_trimmed(blocks_acc(ls).0[i]),
        forall|i: int| 0 <= i < blocks_acc(ls).1.len() ==> !is_blank(#[trigger] blocks_acc(ls).1[i]),
    decreases ls.len(),
{
    if ls.len() > 0 {
        lemma_blocks_acc(ls.drop_last());
        let (done, cur) = blocks_acc(ls.drop_last());
        let line = ls.last();
        if is_blank(line) {
            if cur.len() > 0 {
                lemma_block_of_non_blank_lines(cur);
                let next = done.push(trim(join(cur, newline())));
                assert forall|i: int| 0 <= i < next.len() implies (#[trigger] next[i]).len() > 0
                    && is_trimmed(next[i]) by {
                    if i < done.len() {
                        assert(next[i] == done[i]);
                    }
                }
            }
        } else {
            let next = cur.push(line);
            assert forall|i: int| 0 <= i < next.len() implies !is_blank(#[trigger] next[i]) by {
                if i < cur.len() {
                    assert(next[i] == cur[i]);
                }
            }
        }
    }
}

/// Every block of a text is non-empty text without surrounding white space.
proof fn lemma_split_blocks(text: Seq<char>)
    ensures
        forall|i: int|
            0 <= i < spec_split_blocks(text).len() ==> (#[trigger] spec_split_blocks(text)[i]).len() > 0
                && is_trimmed(spec_split_blocks(text)[i]),
{
    lemma_blocks_acc(lines(text));
    let (done, cur) = blocks_acc(lines(text));
    if cur.len() > 0 {
        lemma_block_of_non_blank_lines(cur);
        let all = done.push(trim(join(cur, newline())));
        assert forall|i: int| 0 <= i < all.len() implies (#[trigger] all[i]).len() > 0 && is_trimmed(
            all[i],
        ) by {
            if i < done.len() {
                assert(all[i] == done[i]);
            }
        }
    }
}

/// The question of a parsed quiz is non-empty text without surrounding white
/// space (it may span several lines when it was wrapped).
pub proof fn law_quiz_question_is_trimmed_text(text: Seq<char>)
    ensures
        spec_parse_quiz(text) matches Some((question, options)) ==> question.len() > 0 && is_trimmed(
            question,
        ),
{
    let blocks = spec_split_blocks(text);
    if blocks.len() < 2 {
        lemma_non_empty_lines_options(text);
        let ls = spec_non_empty_lines(text);
        if ls.len() >= 2 {
            assert(is_option_line(ls[0]));
        }
    } else {
        lemma_split_blocks(text);
        assert(blocks[0].len() > 0 && is_trimmed(blocks[0]));
    }
}

/// The character sequences held by a vector of strings.
pub open spec fn string_views(v: Seq<String>) -> Seq<Seq<char>> {
    v.map_values(|s: String| s@)
}

/// Split a whole-quiz selection into its question and answer options.
///
/// The question is the first blank-line-separated block, so a wrapped question
/// survives. Every non-empty line after it is one option. When there is no
/// blank line at all, the whole text falls back to one item per line. Returns
/// `None` when there is no question plus at least one option.
pub fn parse_quiz(text: &str) -> (r: Option<(String, Vec<String>)>)
    ensures
        match r {
            Some((question, options)) => spec_parse_quiz(text@) == Some(
                (question@, string_views(options@)),
            ),
            None => spec_parse_quiz(text@) is None,
        },
{
    let chars = chars_of(text);
    let blocks = split_blocks_chars(&chars);
    if blocks.len() < 2 {
        let ls = non_empty_lines_chars(&chars);
        if ls.len() < 2 {
            return None;
        }
        let question = string_of(ls[0].as_slice());
        let mut options: Vec<String> = Vec::new();
        let mut k: usize = 1;
        while k < ls.len()
            invariant
                1 <= k <= ls@.len(),
                string_views(options@) == views(ls@).subrange(1, k as int),
            decreases ls@.len() - k,
        {
            let t = string_of(ls[k].as_slice());
            let ghost before = string_views(options@);
            options.push(t);
            assert(string_views(options@) =~= before.push(t@));
            assert(views(ls@).subrange(1, k + 1) =~= views(ls@).subrange(1, k as int).push(ls@[k as int]@));
            k += 1;
        }
        assert(views(ls@)[0] == ls@[0]@);
        return Some((question, options));
    }
    let mut options: Vec<String> = Vec::new();
    let mut b: usize = 1;
    while b < blocks.len()
        invariant
            1 <= b <= blocks@.len(),
            string_views(options@) == block_options(views(blocks@).subrange(1, b as int)),
        decreases blocks@.len() - b,
    {
        let ls = non_empty_lines_chars(blocks[b].as_slice());
        let ghost before = string_views(options@);
        assert(views(blocks@).subrange(1, b + 1).drop_last() =~= views(blocks@).subrange(1, b as int));
        let mut k: usize = 0;
        while k < ls.len()
            invariant
                k <= ls@.len(),
                string_views(options@) == before + views(ls@).subrange(0, k as int),
            decreases ls@.len() - k,
        {
            let t = string_of(ls[k].as_slice());
            let ghost mid = string_views(options@);
            options.push(t);
            assert(string_views(options@) =~= mid.push(t@));
            assert(views(ls@).subrange(0, k + 1) =~= views(ls@).subrange(0, k as int).push(ls@[k as int]@));
            assert(before + views(ls@).subrange(0, k + 1) =~= (before + views(ls@).subrange(0, k as int)).push(ls@[k as int]@));
            k += 1;
        }
        assert(views(ls@).subrange(0, ls@.len() as int) =~= views(ls@));
        b += 1;
    }
    if options.len() == 0 {
        return None;
    }
    let question = string_of(blocks[0].as_slice());
    Some((question, options))
}

/// The trimmed, non-empty lines of `text`, in order.
pub fn non_empty_lines(text: &str) -> (r: Vec<String>)
    ensures
        string_views(r@) == spec_non_empty_lines(text@),
{
    let chars = chars_of(text);
    let ls = non_empty_lines_chars(&chars);
    let mut r: Vec<String> = Vec::new();
    let mut k: usize = 0;
    while k < ls.len()
        invariant
            k <= ls@.len(),
            string_views(r@) == views(ls@).subrange(0, k as int),
        decreases ls@.len() - k,
    {
        let t = string_of(ls[k].as_slice());
        let ghost mid = string_views(r@);
        r.push(t);
        assert(string_views(r@) =~= mid.push(t@));
        assert(views(ls@).subrange(0, k + 1) =~= views(ls@).subrange(0, k as int).push(ls@[k as int]@));
        k += 1;
    }
    assert(views(ls@).subrange(0, ls@.len() as int) =~= views(ls@));
    r
}

/// Group `text` into blocks separated by one or more blank lines, preserving
/// internal newlines within a block and trimming each block.
pub fn split_blocks(text: &str) -> (r: Vec<String>)
    ensures
        string_views(r@) == spec_split_blocks(text@),
{
    let chars = chars_of(text);
    let bs = split_blocks_chars(&chars);
    let mut r: Vec<String> = Vec::new();
    let mut k: usize = 0;
    while k < bs.len()
        invariant
            k <= bs@.len(),
            string_views(r@) == views(bs@).subrange(0, k as int),
        decreases bs@.len() - k,
    {
        let t = string_of(bs[k].as_slice());
        let ghost mid = string_views(r@);
        r.push(t);
        assert(string_views(r@) =~= mid.push(t@));
        assert(views(bs@).subrange(0, k + 1) =~= views(bs@).subrange(0, k as int).push(bs@[k as int]@));
        k += 1;
    }
    assert(views(bs@).subrange(0, bs@.len() as int) =~= views(bs@));
    r
}

/// [`non_empty_lines`] on characters.
fn non_empty_lines_chars(text: &[char]) -> (r: Vec<Vec<char>>)
    ensures
        views(r@) == spec_non_empty_lines(text@),
{
    let ls = split_lines(text);
    let mut r: Vec<Vec<char>> = Vec::new();
    let mut k: usize = 0;
    while k < ls.len()
        invariant
            k <= ls@.len(),
            views(ls@) == lines(text@),
            views(r@) == non_empty_trimmed(views(ls@).take(k as int)),
        decreases ls@.len() - k,
    {
        let t = trimmed(ls[k].as_slice());
        assert(views(ls@).take(k + 1).drop_last() =~= views(ls@).take(k as int));
        if t.len() > 0 {
            let ghost before = views(r@);
            r.push(t);
            assert(views(r@) =~= before.push(t@));
        }
        k += 1;
    }
    assert(views(ls@).take(ls@.len() as int) =~= views(ls@));
    r
}

/// [`split_blocks`] on characters.
fn split_blocks_chars(text: &[char]) -> (r: Vec<Vec<char>>)
    ensures
        views(r@) == spec_split_blocks(text@),
{
    let ls = split_lines(text);
    let nl: Vec<char> = vec!['\n'];
    assert(nl@ =~= newline());
    let mut done: Vec<Vec<char>> = Vec::new();
    let mut cur: Vec<Vec<char>> = Vec::new();
    let mut k: usize = 0;
    while k < ls.len()
        invariant
            k <= ls@.len(),
            views(ls@) == lines(text@),
            nl@ == newline(),
            (views(done@), views(cur@)) == blocks_acc(views(ls@).take(k as int)),
        decreases ls@.len() - k,
    {
        assert(views(ls@).take(k + 1).drop_last() =~= views(ls@).take(k as int));
        assert(views(ls@).take(k + 1).last() == ls@[k as int]@);
        if blank(ls[k].as_slice()) {
            if cur.len() > 0 {
                let joined = join_chars(&cur, nl.as_slice());
                let block = trimmed(joined.as_slice());
                let ghost before = views(done@);
                done.push(block);
                assert(views(done@) =~= before.push(block@));
                cur = Vec::new();
                assert(views(cur@) =~= Seq::<Seq<char>>::empty());
            }
        } else {
            let ghost before = views(cur@);
            cur.push(ls[k].clone());
            assert(views(cur@) =~= before.push(ls@[k as int]@));
        }
        k += 1;
    }
    assert(views(ls@).take(ls@.len() as int) =~= views(ls@));
    if cur.len() > 0 {
        let joined = join_chars(&cur, nl.as_slice());
        let block = trimmed(joined.as_slice());
        let ghost before = views(done@);
        done.push(block);
        assert(views(done@) =~= before.push(block@));
    }
    done
}

} // verus!
