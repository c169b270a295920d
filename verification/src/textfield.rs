//! A line of text that is being edited.
//!
//! The cursor counts characters, so that no edit can split one.

use crate::names::duplicate_list;
use crate::order::{sort_texts, sorted};
use crate::text::{
    alphanumeric, char_lowercase, char_to_lowercase, chars_of, concat2, concat3, has_prefix,
    lowercase, starts_with, string_of, texts,
};
use vstd::prelude::*;

verus! {

/// What the tab key completes against.
#[derive(Clone, Debug, PartialEq, Eq)]
pub enum CompletionSource {
    /// nothing
    Nothing,
    /// the paths on this machine
    Filesystem,
    /// a list of names, such as the folders beside the item that is renamed
    SiblingFolders(Vec<String>),
}

/// A line of text, the position of the cursor in it, and what it completes against.
#[derive(Clone, Debug, PartialEq, Eq)]
pub struct TextField {
    pub buffer: String,
    pub cursor: usize,
    pub completion: CompletionSource,
}

/// A character that belongs to a word.
pub open spec fn is_word(c: char) -> bool {
    alphanumeric(c) || c == '_'
}

/// Whether the character belongs to a word.
pub fn is_word_char(character: char) -> (r: bool)
    ensures
        r == is_word(character),
{
    character.is_alphanumeric() || character == '_'
}

/// The position reached from `i` backwards over characters that belong to words, or over ones
/// that do not.
pub open spec fn back_over(s: Seq<char>, i: int, word: bool) -> int
    decreases i,
{
    if 0 < i <= s.len() && is_word(s[i - 1]) == word {
        back_over(s, i - 1, word)
    } else {
        i
    }
}

/// The position reached from `i` forwards over characters that belong to words, or over ones
/// that do not.
pub open spec fn forth_over(s: Seq<char>, i: int, word: bool) -> int
    decreases s.len() - i,
{
    if 0 <= i < s.len() && is_word(s[i]) == word {
        forth_over(s, i + 1, word)
    } else {
        i
    }
}

/// The start of the word before the cursor.
pub open spec fn word_start(s: Seq<char>, i: int) -> int {
    back_over(s, back_over(s, i, false), true)
}

/// The end of the word behind the cursor.
pub open spec fn word_end(s: Seq<char>, i: int) -> int {
    forth_over(s, forth_over(s, i, false), true)
}

/// The text without the characters from `from` to `to`.
pub open spec fn cut(s: Seq<char>, from: int, to: int) -> Seq<char> {
    s.take(from) + s.skip(to)
}

/// The characters of a text that can stand in one line.
pub open spec fn without_breaks(s: Seq<char>) -> Seq<char>
    decreases s.len(),
{
    if s.len() == 0 {
        s
    } else if s.last() == '\n' || s.last() == '\r' {
        without_breaks(s.drop_last())
    } else {
        without_breaks(s.drop_last()).push(s.last())
    }
}

impl TextField {
    /// The cursor stands in the text or at its end.
    pub open spec fn wf(&self) -> bool {
        self.cursor <= self.buffer@.len()
    }

    /// Only the text and the cursor differ.
    pub open spec fn edited(&self, before: TextField, text: Seq<char>, cursor: int) -> bool {
        self.buffer@ == text && self.cursor == cursor && self.completion == before.completion
    }

    /// A field with that text, the cursor at its end.
    pub fn new(initial: &str) -> (r: TextField)
        ensures
            r.wf(),
            r.buffer@ == initial@,
            r.cursor == initial@.len(),
            r.completion == CompletionSource::Nothing,
    {
        let cursor: usize = initial.unicode_len();
        TextField { buffer: initial.to_owned(), cursor, completion: CompletionSource::Nothing }
    }

    /// A field with that text that completes.
    pub fn with_completion(initial: &str, completion: CompletionSource) -> (r: TextField)
        ensures
            r.wf(),
            r.buffer@ == initial@,
            r.cursor == initial@.len(),
            r.completion == completion,
    {
        let cursor: usize = initial.unicode_len();
        TextField { buffer: initial.to_owned(), cursor, completion }
    }

    /// The text.
    pub fn buffer(&self) -> (r: &str)
        ensures
            r@ == self.buffer@,
    {
        self.buffer.as_str()
    }

    /// The position of the cursor.
    pub fn cursor(&self) -> (r: usize)
        ensures
            r == self.cursor,
    {
        self.cursor
    }

    /// What the field completes against.
    pub fn completion_source(&self) -> (r: CompletionSource)
        ensures
            match (r, self.completion) {
                (CompletionSource::Nothing, CompletionSource::Nothing) => true,
                (CompletionSource::Filesystem, CompletionSource::Filesystem) => true,
                (CompletionSource::SiblingFolders(a), CompletionSource::SiblingFolders(b)) => texts(
                    a@,
                ) == texts(b@),
                _ => false,
            },
    {
        match &self.completion {
            CompletionSource::Nothing => CompletionSource::Nothing,
            CompletionSource::Filesystem => CompletionSource::Filesystem,
            CompletionSource::SiblingFolders(list) => CompletionSource::SiblingFolders(
                duplicate_list(list),
            ),
        }
    }

    /// Sets what the field completes against.
    pub fn set_completion(&mut self, completion: CompletionSource)
        ensures
            *final(self) == (TextField { completion, ..*old(self) }),
    {
        self.completion = completion;
    }

    /// Puts the cursor at a position, or at the end where that lies behind it.
    pub fn set_cursor(&mut self, cursor: usize)
        ensures
            final(self).wf(),
            final(self).edited(
                *old(self),
                old(self).buffer@,
                if cursor <= old(self).buffer@.len() {
                    cursor as int
                } else {
                    old(self).buffer@.len() as int
                },
            ),
    {
        let n: usize = self.buffer.as_str().unicode_len();
        self.cursor = if cursor < n { cursor } else { n };
    }

    /// Puts a text at the cursor and the cursor behind it.
    fn insert_text(&mut self, text: &str)
        requires
            old(self).wf(),
        ensures
            final(self).wf(),
            final(self).edited(
                *old(self),
                old(self).buffer@.take(old(self).cursor as int) + text@ + old(self).buffer@.skip(
                    old(self).cursor as int,
                ),
                old(self).cursor + text@.len(),
            ),
    {
        let v = chars_of(self.buffer.as_str());
        let head = string_of(v.as_slice(), 0, self.cursor);
        let tail = string_of(v.as_slice(), self.cursor, v.len());
        let front = concat2(head.as_str(), text);
        assert(head@ =~= self.buffer@.take(self.cursor as int));
        assert(tail@ =~= self.buffer@.skip(self.cursor as int));
        let cursor: usize = front.as_str().unicode_len();
        self.buffer = concat2(front.as_str(), tail.as_str());
        self.cursor = cursor;
    }

    /// Takes the characters from `from` to `to` out and puts the cursor at `cursor`.
    fn remove_range(&mut self, from: usize, to: usize, cursor: usize)
        requires
            from <= to <= old(self).buffer@.len(),
            cursor <= from,
        ensures
            final(self).wf(),
            final(self).edited(
                *old(self),
                cut(old(self).buffer@, from as int, to as int),
                cursor as int,
            ),
    {
        let v = chars_of(self.buffer.as_str());
        let head = string_of(v.as_slice(), 0, from);
        let tail = string_of(v.as_slice(), to, v.len());
        assert(head@ =~= self.buffer@.take(from as int));
        assert(tail@ =~= self.buffer@.skip(to as int));
        self.buffer = concat2(head.as_str(), tail.as_str());
        self.cursor = cursor;
    }

    /// Types a character at the cursor.
    pub fn insert_char(&mut self, character: char)
        requires
            old(self).wf(),
        ensures
            final(self).wf(),
            final(self).edited(
                *old(self),
                old(self).buffer@.insert(old(self).cursor as int, character),
                old(self).cursor + 1,
            ),
    {
        let mut text = String::new();
        text.push(character);
        assert(text@ =~= seq![character]);
        let ghost before = *self;
        self.insert_text(text.as_str());
        assert(self.buffer@ =~= before.buffer@.insert(before.cursor as int, character));
    }

    /// Deletes the character before the cursor.
    pub fn backspace(&mut self)
        requires
            old(self).wf(),
        ensures
            final(self).wf(),
            old(self).cursor == 0 ==> *final(self) == *old(self),
            old(self).cursor > 0 ==> final(self).edited(
                *old(self),
                old(self).buffer@.remove(old(self).cursor - 1),
                old(self).cursor - 1,
            ),
    {
        if self.cursor == 0 {
            return;
        }
        let at: usize = self.cursor - 1;
        let ghost before = self.buffer@;
        self.remove_range(at, at + 1, at);
        assert(self.buffer@ =~= before.remove(at as int));
    }

    /// Deletes the character behind the cursor.
    pub fn delete_forward(&mut self)
        requires
            old(self).wf(),
        ensures
            final(self).wf(),
            old(self).cursor == old(self).buffer@.len() ==> *final(self) == *old(self),
            old(self).cursor < old(self).buffer@.len() ==> final(self).edited(
                *old(self),
                old(self).buffer@.remove(old(self).cursor as int),
                old(self).cursor as int,
            ),
    {
        let n: usize = self.buffer.as_str().unicode_len();
        if self.cursor >= n {
            return;
        }
        let at: usize = self.cursor;
        let ghost before = self.buffer@;
        self.remove_range(at, at + 1, at);
        assert(self.buffer@ =~= before.remove(at as int));
    }

    /// Moves the cursor one character back.
    pub fn move_left(&mut self)
        requires
            old(self).wf(),
        ensures
            final(self).wf(),
            final(self).edited(
                *old(self),
                old(self).buffer@,
                if old(self).cursor > 0 {
                    old(self).cursor - 1
                } else {
                    0
                },
            ),
    {
        self.cursor = self.cursor.saturating_sub(1);
    }

    /// Moves the cursor one character on.
    pub fn move_right(&mut self)
        requires
            old(self).wf(),
        ensures
            final(self).wf(),
            final(self).edited(
                *old(self),
                old(self).buffer@,
                if old(self).cursor < old(self).buffer@.len() {
                    old(self).cursor + 1
                } else {
                    old(self).cursor as int
                },
            ),
    {
        let n: usize = self.buffer.as_str().unicode_len();
        if self.cursor < n {
            self.cursor = self.cursor + 1;
        }
    }

    /// Moves the cursor to the start.
    pub fn move_home(&mut self)
        ensures
            final(self).wf(),
            final(self).edited(*old(self), old(self).buffer@, 0),
    {
        self.cursor = 0;
    }

    /// Moves the cursor to the end.
    pub fn move_end(&mut self)
        ensures
            final(self).wf(),
            final(self).edited(*old(self), old(self).buffer@, old(self).buffer@.len() as int),
    {
        self.cursor = self.buffer.as_str().unicode_len();
    }

    /// The start of the word before the cursor.
    fn start_of_word(&self) -> (r: usize)
        requires
            self.wf(),
        ensures
            r == word_start(self.buffer@, self.cursor as int),
            r <= self.cursor,
    {
        let v = chars_of(self.buffer.as_str());
        let mut i: usize = self.cursor;
        while i > 0 && !is_word_char(v[i - 1])
            invariant
                i <= self.cursor <= v@.len(),
                v@ == self.buffer@,
                back_over(v@, self.cursor as int, false) == back_over(v@, i as int, false),
            decreases i,
        {
            i = i - 1;
        }
        let ghost mid = i as int;
        while i > 0 && is_word_char(v[i - 1])
            invariant
                i <= self.cursor <= v@.len(),
                v@ == self.buffer@,
                back_over(v@, mid, true) == back_over(v@, i as int, true),
            decreases i,
        {
            i = i - 1;
        }
        i
    }

    /// The end of the word behind the cursor.
    fn end_of_word(&self) -> (r: usize)
        requires
            self.wf(),
        ensures
            r == word_end(self.buffer@, self.cursor as int),
            self.cursor <= r <= self.buffer@.len(),
    {
        let v = chars_of(self.buffer.as_str());
        let n: usize = v.len();
        let mut i: usize = self.cursor;
        while i < n && !is_word_char(v[i])
            invariant
                self.cursor <= i <= n == v@.len(),
                v@ == self.buffer@,
                forth_over(v@, self.cursor as int, false) == forth_over(v@, i as int, false),
            decreases n - i,
        {
            i = i + 1;
        }
        let ghost mid = i as int;
        while i < n && is_word_char(v[i])
            invariant
                self.cursor <= i <= n == v@.len(),
                v@ == self.buffer@,
                forth_over(v@, mid, true) == forth_over(v@, i as int, true),
            decreases n - i,
        {
            i = i + 1;
        }
        i
    }

    /// Moves the cursor to the start of the word before it.
    pub fn move_word_left(&mut self)
        requires
            old(self).wf(),
        ensures
            final(self).wf(),
            final(self).edited(
                *old(self),
                old(self).buffer@,
                word_start(old(self).buffer@, old(self).cursor as int),
            ),
            final(self).cursor <= old(self).cursor,
    {
        self.cursor = self.start_of_word();
    }

    /// Moves the cursor to the end of the word behind it.
    pub fn move_word_right(&mut self)
        requires
            old(self).wf(),
        ensures
            final(self).wf(),
            final(self).edited(
                *old(self),
                old(self).buffer@,
                word_end(old(self).buffer@, old(self).cursor as int),
            ),
            final(self).cursor >= old(self).cursor,
    {
        self.cursor = self.end_of_word();
    }

    /// Deletes back to the start of the word before the cursor.
    pub fn delete_word_backward(&mut self)
        requires
            old(self).wf(),
        ensures
            final(self).wf(),
            ({
                let from = word_start(old(self).buffer@, old(self).cursor as int);
                final(self).edited(
                    *old(self),
                    cut(old(self).buffer@, from, old(self).cursor as int),
                    from,
                )
            }),
    {
        let from: usize = self.start_of_word();
        let to: usize = self.cursor;
        self.remove_range(from, to, from);
    }

    /// Deletes on to the end of the word behind the cursor.
    pub fn delete_word_forward(&mut self)
        requires
            old(self).wf(),
        ensures
            final(self).wf(),
            final(self).edited(
                *old(self),
                cut(
                    old(self).buffer@,
                    old(self).cursor as int,
                    word_end(old(self).buffer@, old(self).cursor as int),
                ),
                old(self).cursor as int,
            ),
    {
        let to: usize = self.end_of_word();
        let from: usize = self.cursor;
        self.remove_range(from, to, from);
    }

    /// Puts a text at the cursor, without its line breaks.
    pub fn paste(&mut self, text: &str)
        requires
            old(self).wf(),
        ensures
            final(self).wf(),
            final(self).edited(
                *old(self),
                old(self).buffer@.take(old(self).cursor as int) + without_breaks(text@) + old(
                    self,
                ).buffer@.skip(old(self).cursor as int),
                old(self).cursor + without_breaks(text@).len(),
            ),
    {
        let v = chars_of(text);
        let mut line = String::new();
        let mut i: usize = 0;
        assert(v@.take(0) =~= Seq::<char>::empty());
        assert(line@ =~= Seq::<char>::empty());
        while i < v.len()
            invariant
                i <= v@.len(),
                line@ == without_breaks(v@.take(i as int)),
            decreases v@.len() - i,
        {
            assert(v@.take(i as int + 1).drop_last() =~= v@.take(i as int));
            if v[i] != '\n' && v[i] != '\r' {
                line.push(v[i]);
            }
            i = i + 1;
        }
        assert(v@.take(v@.len() as int) =~= v@);
        self.insert_text(line.as_str());
    }
}

/// Typing a character and deleting it again changes nothing.
pub proof fn law_backspace_undoes_typing(
    before: TextField,
    typed: TextField,
    after: TextField,
    c: char,
)
    requires
        before.wf(),
        typed.edited(
            before,
            before.buffer@.insert(before.cursor as int, c),
            before.cursor + 1,
        ),
        after.edited(typed, typed.buffer@.remove(typed.cursor - 1), typed.cursor - 1),
    ensures
        after.buffer@ == before.buffer@,
        after.cursor == before.cursor,
        after.completion == before.completion,
{
    assert(after.buffer@ =~= before.buffer@);
}

/// Word moves stay in the text and go the right way.
pub proof fn law_word_moves_stay_inside(s: Seq<char>, i: int)
    requires
        0 <= i <= s.len(),
    ensures
        0 <= word_start(s, i) <= i,
        i <= word_end(s, i) <= s.len(),
{
    lemma_back_over(s, i, false);
    lemma_back_over(s, back_over(s, i, false), true);
    lemma_forth_over(s, i, false);
    lemma_forth_over(s, forth_over(s, i, false), true);
}

/// Going back stays in the text.
proof fn lemma_back_over(s: Seq<char>, i: int, word: bool)
    requires
        0 <= i <= s.len(),
    ensures
        0 <= back_over(s, i, word) <= i,
    decreases i,
{
    if i > 0 && is_word(s[i - 1]) == word {
        lemma_back_over(s, i - 1, word);
    }
}

/// Going forth stays in the text.
proof fn lemma_forth_over(s: Seq<char>, i: int, word: bool)
    requires
        0 <= i <= s.len(),
    ensures
        i <= forth_over(s, i, word) <= s.len(),
    decreases s.len() - i,
{
    if i < s.len() && is_word(s[i]) == word {
        lemma_forth_over(s, i + 1, word);
    }
}

// ----- completion -----

/// The characters are the same letter, whatever the case.
pub open spec fn same_letter(a: char, b: char) -> bool {
    char_lowercase(a) == char_lowercase(b)
}

/// How many characters two texts share from the start, whatever the case.
pub open spec fn shared(a: Seq<char>, b: Seq<char>) -> int
    decreases a.len(),
{
    if a.len() == 0 || b.len() == 0 || !same_letter(a[0], b[0]) {
        0
    } else {
        1 + shared(a.skip(1), b.skip(1))
    }
}

/// How many characters of the first text all of the first `n` share.
pub open spec fn shared_by_all(list: Seq<Seq<char>>, n: int) -> int
    decreases n,
{
    if n <= 1 {
        list[0].len() as int
    } else {
        let before = shared_by_all(list, n - 1);
        let own = shared(list[0], list[n - 1]);
        if own < before {
            own
        } else {
            before
        }
    }
}

/// The longest start of the first text that all share, whatever the case.
pub open spec fn common_prefix(list: Seq<Seq<char>>) -> Seq<char> {
    if list.len() == 0 {
        Seq::empty()
    } else {
        list[0].take(shared_by_all(list, list.len() as int))
    }
}

/// What a number of shared characters says.
proof fn lemma_shared(a: Seq<char>, b: Seq<char>)
    ensures
        0 <= shared(a, b) <= a.len(),
        shared(a, b) <= b.len(),
        forall|k: int| 0 <= k < shared(a, b) ==> same_letter(#[trigger] a[k], b[k]),
        shared(a, b) < a.len() && shared(a, b) < b.len() ==> !same_letter(
            a[shared(a, b)],
            b[shared(a, b)],
        ),
    decreases a.len(),
{
    if a.len() > 0 && b.len() > 0 && same_letter(a[0], b[0]) {
        let x = a.skip(1);
        let y = b.skip(1);
        lemma_shared(x, y);
        assert forall|k: int| 0 <= k < shared(a, b) implies same_letter(#[trigger] a[k], b[k]) by {
            if k > 0 {
                assert(x[k - 1] == a[k] && y[k - 1] == b[k]);
                assert(same_letter(x[k - 1], y[k - 1]));
            }
        }
        let n = shared(x, y);
        if n < x.len() && n < y.len() {
            assert(x[n] == a[n + 1] && y[n] == b[n + 1]);
        }
    }
}

/// The number of characters shared by all is shared by each.
proof fn lemma_shared_by_all(list: Seq<Seq<char>>, n: int)
    requires
        1 <= n <= list.len(),
    ensures
        0 <= shared_by_all(list, n) <= list[0].len(),
        forall|i: int| 1 <= i < n ==> shared_by_all(list, n) <= shared(list[0], #[trigger] list[i]),
    decreases n,
{
    if n > 1 {
        lemma_shared_by_all(list, n - 1);
        lemma_shared(list[0], list[n - 1]);
    }
}

/// The common start is, whatever the case, a start of every text in the list.
pub proof fn law_common_prefix_is_shared(list: Seq<Seq<char>>, i: int, k: int)
    requires
        0 <= i < list.len(),
        0 <= k < common_prefix(list).len(),
    ensures
        common_prefix(list).len() <= list[i].len(),
        same_letter(common_prefix(list)[k], list[i][k]),
{
    lemma_shared_by_all(list, list.len() as int);
    if i > 0 {
        lemma_shared(list[0], list[i]);
        assert(shared_by_all(list, list.len() as int) <= shared(list[0], list[i]));
    }
}

/// The start that all share is as long as it can be.
pub(crate) proof fn lemma_longest(list: Seq<Seq<char>>, n: int)
    requires
        1 <= n <= list.len(),
    ensures
        0 <= shared_by_all(list, n) <= list[0].len(),
        shared_by_all(list, n) == list[0].len() || exists|i: int|
            0 <= i < n && (#[trigger] list[i].len() == shared_by_all(list, n) || !same_letter(
                list[0][shared_by_all(list, n)],
                list[i][shared_by_all(list, n)],
            )),
    decreases n,
{
    if n > 1 {
        lemma_longest(list, n - 1);
        lemma_shared(list[0], list[n - 1]);
        let before = shared_by_all(list, n - 1);
        if shared_by_all(list, n) == before && before < list[0].len() {
            let i = choose|i: int|
                0 <= i < n - 1 && (#[trigger] list[i].len() == before || !same_letter(
                    list[0][before],
                    list[i][before],
                ));
            assert(list[i].len() == before || !same_letter(list[0][before], list[i][before]));
        } else if before > shared(list[0], list[n - 1]) {
            assert(list[n - 1].len() >= 0);
        }
    }
}

/// The texts of string slices.
pub open spec fn slice_texts(v: Seq<&str>) -> Seq<Seq<char>> {
    v.map_values(|s: &str| s@)
}

/// Whether the characters are the same letter, whatever the case.
fn letters_match(a: char, b: char) -> (r: bool)
    ensures
        r == same_letter(a, b),
{
    let x = char_to_lowercase(a);
    let y = char_to_lowercase(b);
    if x.len() != y.len() {
        return false;
    }
    let mut i: usize = 0;
    while i < x.len()
        invariant
            i <= x@.len(),
            x@.len() == y@.len(),
            x@ == char_lowercase(a),
            y@ == char_lowercase(b),
            forall|j: int| 0 <= j < i ==> x@[j] == y@[j],
        decreases x@.len() - i,
    {
        if x[i] != y[i] {
            return false;
        }
        i = i + 1;
    }
    assert(x@ =~= y@);
    true
}

/// How many characters two texts share from the start, whatever the case.
fn count_shared(a: &Vec<char>, b: &Vec<char>) -> (r: usize)
    ensures
        r == shared(a@, b@),
        r <= a@.len(),
{
    let mut i: usize = 0;
    assert(a@.skip(0) =~= a@);
    assert(b@.skip(0) =~= b@);
    while i < a.len() && i < b.len() && letters_match(a[i], b[i])
        invariant
            i <= a@.len(),
            i <= b@.len(),
            shared(a@, b@) == i + shared(a@.skip(i as int), b@.skip(i as int)),
        decreases a@.len() - i,
    {
        proof {
            assert(a@.skip(i as int)[0] == a@[i as int]);
            assert(b@.skip(i as int)[0] == b@[i as int]);
            assert(a@.skip(i as int).skip(1) =~= a@.skip(i as int + 1));
            assert(b@.skip(i as int).skip(1) =~= b@.skip(i as int + 1));
        }
        i = i + 1;
    }
    proof {
        if i < a@.len() && i < b@.len() {
            assert(a@.skip(i as int)[0] == a@[i as int]);
            assert(b@.skip(i as int)[0] == b@[i as int]);
        }
    }
    i
}

/// The longest start of the first text that all share, whatever the case.
pub fn longest_common_prefix_ci(paths: &[&str]) -> (r: String)
    ensures
        r@ == common_prefix(slice_texts(paths@)),
{
    let ghost all = slice_texts(paths@);
    if paths.len() == 0 {
        let none = String::new();
        assert(none@ =~= common_prefix(all));
        return none;
    }
    let first = chars_of(paths[0]);
    assert(all[0] == first@);
    let mut common: usize = first.len();
    let mut i: usize = 1;
    while i < paths.len()
        invariant
            1 <= i <= paths@.len(),
            all == slice_texts(paths@),
            first@ == all[0],
            common == shared_by_all(all, i as int),
            common <= first@.len(),
        decreases paths@.len() - i,
    {
        let other = chars_of(paths[i]);
        assert(all[i as int] == other@);
        let count: usize = count_shared(&first, &other);
        if count < common {
            common = count;
        }
        i = i + 1;
    }
    let out = string_of(first.as_slice(), 0, common);
    assert(out@ =~= common_prefix(all));
    out
}

/// The longest start of the first text that all share, of a list of strings.
pub fn common_prefix_of(list: &Vec<String>) -> (r: String)
    ensures
        r@ == common_prefix(texts(list@)),
{
    let mut slices: Vec<&str> = Vec::new();
    let mut i: usize = 0;
    while i < list.len()
        invariant
            i <= list@.len(),
            slices@.len() == i,
            forall|j: int| 0 <= j < i ==> (#[trigger] slices@[j])@ == list@[j]@,
        decreases list@.len() - i,
    {
        slices.push(list[i].as_str());
        i = i + 1;
    }
    assert(slice_texts(slices@) =~= texts(list@));
    longest_common_prefix_ci(slices.as_slice())
}

/// The candidates that begin with the text, whatever the case, in order.
pub open spec fn beginning_with(candidates: Seq<Seq<char>>, text: Seq<char>) -> Seq<Seq<char>>
    decreases candidates.len(),
{
    if candidates.len() == 0 {
        candidates
    } else {
        let before = beginning_with(candidates.drop_last(), text);
        if has_prefix(lowercase(candidates.last()), lowercase(text)) {
            before.push(candidates.last())
        } else {
            before
        }
    }
}

/// What the matches complete to: the only one, or what all of them share.
pub open spec fn completion_of(matches: Seq<Seq<char>>) -> Seq<char> {
    if matches.len() == 1 {
        matches[0]
    } else {
        common_prefix(matches)
    }
}

/// The text after completing against a list: it never gets shorter.
pub open spec fn completed_from(text: Seq<char>, candidates: Seq<Seq<char>>) -> Seq<char> {
    let matches = beginning_with(candidates, text);
    if matches.len() > 0 && completion_of(matches).len() > text.len() {
        completion_of(matches)
    } else {
        text
    }
}

/// An entry of a folder.
#[derive(Clone, Debug, PartialEq, Eq)]
pub struct FolderEntry {
    pub name: String,
    pub is_folder: bool,
}

/// The part of a path up to and with its last slash; empty where it has none.
pub open spec fn folder_part(path: Seq<char>) -> Seq<char>
    decreases path.len(),
{
    if path.len() == 0 || path.last() == '/' {
        path
    } else {
        folder_part(path.drop_last())
    }
}

/// The paths of the entries whose names begin with the rest of the path, whatever the case, as
/// they are completed: a folder with a slash behind it.
pub open spec fn path_candidates(entries: Seq<FolderEntry>, folder: Seq<char>, rest: Seq<char>) -> Seq<
    Seq<char>,
>
    decreases entries.len(),
{
    if entries.len() == 0 {
        Seq::empty()
    } else {
        let before = path_candidates(entries.drop_last(), folder, rest);
        let entry = entries.last();
        if has_prefix(lowercase(entry.name@), lowercase(rest)) {
            before.push(
                folder + entry.name@ + (if entry.is_folder {
                    "/"@
                } else {
                    Seq::empty()
                }),
            )
        } else {
            before
        }
    }
}

/// The entries of a folder, where it can be read.
pub open spec fn opt_entries(entries: Option<Vec<FolderEntry>>) -> Option<Seq<FolderEntry>> {
    match entries {
        Some(list) => Some(list@),
        None => None,
    }
}

/// What a path completes to among the entries of its folder; itself where nothing matches or
/// the folder cannot be read.
pub open spec fn path_completion(path: Seq<char>, entries: Option<Seq<FolderEntry>>) -> Seq<char> {
    match entries {
        None => path,
        Some(list) => {
            let folder = folder_part(path);
            completion_among(path, folder, path.skip(folder.len() as int), list)
        },
    }
}

/// The length of the part of a path up to and with its last slash.
fn folder_length(path: &Vec<char>) -> (r: usize)
    ensures
        r == folder_part(path@).len(),
        r <= path@.len(),
        folder_part(path@) == path@.take(r as int),
{
    let mut n: usize = path.len();
    assert(path@.take(n as int) =~= path@);
    while n > 0 && path[n - 1] != '/'
        invariant
            n <= path@.len(),
            folder_part(path@) == folder_part(path@.take(n as int)),
        decreases n,
    {
        assert(path@.take(n as int).drop_last() =~= path@.take(n - 1));
        n = n - 1;
    }
    n
}

/// What a path completes to among those entries: the start that all paths share which begin
/// with the folder and the rest, or the text itself where there is none.
pub open spec fn completion_among(
    text: Seq<char>,
    folder: Seq<char>,
    rest: Seq<char>,
    entries: Seq<FolderEntry>,
) -> Seq<char> {
    let found = path_candidates(entries, folder, rest);
    if found.len() == 0 {
        text
    } else {
        completion_of(sorted(found))
    }
}

/// What a path completes to among those entries.
fn complete_among(text: &str, folder: &str, rest: &str, list: &Vec<FolderEntry>) -> (r: String)
    ensures
        r@ == completion_among(text@, folder@, rest@, list@),
{
    let low = rest.to_lowercase();
    let mut found: Vec<String> = Vec::new();
    let mut i: usize = 0;
    assert(list@.take(0) =~= Seq::<FolderEntry>::empty());
    assert(texts(found@) =~= Seq::<Seq<char>>::empty());
    while i < list.len()
        invariant
            i <= list@.len(),
            low@ == lowercase(rest@),
            texts(found@) == path_candidates(list@.take(i as int), folder@, rest@),
        decreases list@.len() - i,
    {
        assert(list@.take(i as int + 1).drop_last() =~= list@.take(i as int));
        let name = list[i].name.as_str().to_lowercase();
        if starts_with(name.as_str(), low.as_str()) {
            let tail = if list[i].is_folder { "/" } else { "" };
            let path = concat3(folder, list[i].name.as_str(), tail);
            proof {
                reveal_strlit("");
                assert(""@ =~= Seq::<char>::empty());
            }
            let ghost before = found@;
            found.push(path);
            assert(texts(found@) =~= texts(before).push(path@));
        }
        i = i + 1;
    }
    assert(list@.take(list@.len() as int) =~= list@);
    assert(texts(found@).len() == found@.len());
    if found.len() == 0 {
        return text.to_owned();
    }
    let ordered = sort_texts(&found);
    assert(texts(ordered@).len() == ordered@.len());
    if ordered.len() == 1 {
        assert(texts(ordered@)[0] == ordered@[0]@);
        ordered[0].clone()
    } else {
        common_prefix_of(&ordered)
    }
}

/// What a path completes to among the entries of its folder.
pub fn complete_filesystem_path(prefix: &str, entries: &Option<Vec<FolderEntry>>) -> (r: String)
    ensures
        r@ == path_completion(prefix@, opt_entries(*entries)),
{
    let list = match entries {
        Some(list) => list,
        None => {
            return prefix.to_owned();
        },
    };
    let v = chars_of(prefix);
    let split: usize = folder_length(&v);
    let folder = string_of(v.as_slice(), 0, split);
    let rest = string_of(v.as_slice(), split, v.len());
    proof {
        assert(folder@ =~= folder_part(prefix@));
        assert(rest@ =~= prefix@.skip(split as int));
    }
    complete_among(prefix, folder.as_str(), rest.as_str(), list)
}

/// The folder whose entries a path is completed among: the working folder for a text without a
/// slash.
pub open spec fn listed_folder(path: Seq<char>) -> Seq<char> {
    if folder_part(path).len() == 0 {
        "."@
    } else {
        folder_part(path)
    }
}

/// The folder whose entries a path is completed among.
pub fn folder_to_list(path: &str) -> (r: String)
    ensures
        r@ == listed_folder(path@),
{
    let v = chars_of(path);
    let split: usize = folder_length(&v);
    if split == 0 {
        return ".".to_owned();
    }
    let folder = string_of(v.as_slice(), 0, split);
    assert(folder@ =~= folder_part(path@));
    folder
}

/// A text after completing it as a path: it never gets shorter.
pub open spec fn completed_path(before: Seq<char>, entries: Option<Seq<FolderEntry>>) -> Seq<char> {
    let longer = path_completion(before, entries);
    if longer.len() < before.len() {
        before
    } else {
        longer
    }
}

/// What the path of a prompt completes to among the entries of its folder.
pub fn tab_complete_path(buffer: &str, entries: &Option<Vec<FolderEntry>>) -> (r: String)
    ensures
        r@ == completed_path(buffer@, opt_entries(*entries)),
{
    let longer = complete_filesystem_path(buffer, entries);
    if chars_of(longer.as_str()).len() < chars_of(buffer).len() {
        buffer.to_owned()
    } else {
        longer
    }
}

impl TextField {
    /// The folder whose entries the path before the cursor is completed among.
    pub fn completion_folder(&self) -> (r: String)
        requires
            self.wf(),
        ensures
            ({
                let folder = folder_part(self.buffer@.take(self.cursor as int));
                r@ == (if folder.len() == 0 {
                    "."@
                } else {
                    folder
                })
            }),
    {
        let v = chars_of(self.buffer.as_str());
        let before = string_of(v.as_slice(), 0, self.cursor);
        assert(before@ =~= self.buffer@.take(self.cursor as int));
        let w = chars_of(before.as_str());
        let n: usize = folder_length(&w);
        if n == 0 {
            ".".to_owned()
        } else {
            let r = string_of(w.as_slice(), 0, n);
            assert(r@ =~= w@.take(n as int));
            r
        }
    }

    /// Completes the text against a list of names, or tells the folder whose entries are needed
    /// to complete it as a path; [`TextField::tab_complete_filesystem`] does that then.
    pub fn tab_complete(&mut self) -> (r: Option<String>)
        requires
            old(self).wf(),
        ensures
            final(self).wf(),
            match old(self).completion {
                CompletionSource::Nothing => r is None && *final(self) == *old(self),
                CompletionSource::Filesystem => {
                    let folder = folder_part(old(self).buffer@.take(old(self).cursor as int));
                    &&& r matches Some(path)
                    &&& path@ == (if folder.len() == 0 {
                        "."@
                    } else {
                        folder
                    })
                    &&& *final(self) == *old(self)
                },
                CompletionSource::SiblingFolders(candidates) => {
                    let text = completed_from(old(self).buffer@, texts(candidates@));
                    &&& r is None
                    &&& final(self).edited(
                        *old(self),
                        text,
                        if text == old(self).buffer@ {
                            old(self).cursor as int
                        } else {
                            text.len() as int
                        },
                    )
                },
            },
    {
        let wants_folder = match &self.completion {
            CompletionSource::Filesystem => true,
            _ => false,
        };
        if wants_folder {
            return Some(self.completion_folder());
        }
        let longer = match &self.completion {
            CompletionSource::SiblingFolders(candidates) => longer_from(
                self.buffer.as_str(),
                candidates,
            ),
            _ => None,
        };
        if let Some(text) = longer {
            self.cursor = text.as_str().unicode_len();
            self.buffer = text;
        }
        None
    }

    /// Completes the path before the cursor among the entries of its folder. What stands behind
    /// the cursor stays.
    pub fn tab_complete_filesystem(&mut self, entries: &Option<Vec<FolderEntry>>)
        requires
            old(self).wf(),
        ensures
            final(self).wf(),
            ({
                let before = old(self).buffer@.take(old(self).cursor as int);
                let path = completed_path(
                    before,
                    match *entries {
                        Some(list) => Some(list@),
                        None => None,
                    },
                );
                final(self).edited(
                    *old(self),
                    path + old(self).buffer@.skip(old(self).cursor as int),
                    path.len() as int,
                )
            }),
    {
        let v = chars_of(self.buffer.as_str());
        let before = string_of(v.as_slice(), 0, self.cursor);
        let after = string_of(v.as_slice(), self.cursor, v.len());
        assert(before@ =~= self.buffer@.take(self.cursor as int));
        assert(after@ =~= self.buffer@.skip(self.cursor as int));
        let path = complete_filesystem_path(before.as_str(), entries);
        let length: usize = path.as_str().unicode_len();
        if length < self.cursor {
            assert(before@ + after@ =~= self.buffer@);
            return;
        }
        self.buffer = concat2(path.as_str(), after.as_str());
        self.cursor = length;
    }
}

/// What the text completes to, where that is longer.
fn longer_from(text: &str, candidates: &Vec<String>) -> (r: Option<String>)
    ensures
        match r {
            Some(longer) => longer@ == completed_from(text@, texts(candidates@)) && longer@.len()
                > text@.len(),
            None => completed_from(text@, texts(candidates@)) == text@,
        },
{
    let low = text.to_lowercase();
    let ghost all = texts(candidates@);
    let mut found: Vec<String> = Vec::new();
    let mut i: usize = 0;
    assert(all.take(0) =~= Seq::<Seq<char>>::empty());
    assert(texts(found@) =~= Seq::<Seq<char>>::empty());
    while i < candidates.len()
        invariant
            i <= candidates@.len(),
            all == texts(candidates@),
            low@ == lowercase(text@),
            texts(found@) == beginning_with(all.take(i as int), text@),
        decreases candidates@.len() - i,
    {
        proof {
            assert(all.take(i as int + 1).drop_last() =~= all.take(i as int));
            assert(all.take(i as int + 1).last() == candidates@[i as int]@);
        }
        let own = candidates[i].as_str().to_lowercase();
        if starts_with(own.as_str(), low.as_str()) {
            let ghost before = found@;
            found.push(candidates[i].clone());
            assert(texts(found@) =~= texts(before).push(candidates@[i as int]@));
        }
        i = i + 1;
    }
    assert(all.take(all.len() as int) =~= all);
    assert(texts(found@).len() == found@.len());
    if found.len() == 0 {
        return None;
    }
    let longer = if found.len() == 1 {
        assert(texts(found@)[0] == found@[0]@);
        found[0].clone()
    } else {
        common_prefix_of(&found)
    };
    if longer.as_str().unicode_len() > text.unicode_len() {
        Some(longer)
    } else {
        None
    }
}

/// Completing never makes what was typed shorter.
pub proof fn law_completion_never_shrinks(
    text: Seq<char>,
    candidates: Seq<Seq<char>>,
    entries: Option<Seq<FolderEntry>>,
)
    ensures
        completed_from(text, candidates).len() >= text.len(),
        completed_path(text, entries).len() >= text.len(),
{
}

} // verus!
