use vstd::prelude::*;

verus! {

/// Why a program text could not be loaded.
#[derive(Clone, Copy, Debug, PartialEq, Eq, Structural)]
pub enum LoadError {
    /// The word with this index, counted from 0, is not a hexadecimal
    /// number of at most sixteen bits.
    InvalidWord { index: usize },
    /// The text holds more words than fit between the program start
    /// address and the end of memory.
    ProgramTooLarge,
}

/// Whether `c` is white space: a character with the Unicode property
/// White_Space.
pub open spec fn is_space(c: char) -> bool {
    let u = c as u32;
    ||| 0x09 <= u <= 0x0D
    ||| u == 0x20
    ||| u == 0x85
    ||| u == 0xA0
    ||| u == 0x1680
    ||| 0x2000 <= u <= 0x200A
    ||| u == 0x2028
    ||| u == 0x2029
    ||| u == 0x202F
    ||| u == 0x205F
    ||| u == 0x3000
}

/// The text without the white space at its start and at its end.
pub open spec fn trimmed(s: Seq<char>) -> Seq<char>
    decreases s.len(),
{
    if s.len() > 0 && is_space(s[0]) {
        trimmed(s.drop_first())
    } else if s.len() > 0 && is_space(s.last()) {
        trimmed(s.drop_last())
    } else {
        s
    }
}

/// Whether `c` ends a word: a space or a line feed.
pub open spec fn is_separator(c: char) -> bool {
    c == ' ' || c == '\n'
}

/// The pieces that the separators cut `s` into. There is one piece more
/// than there are separators, so two separators in a row, or one at either
/// end, give an empty piece.
pub open spec fn split_words(s: Seq<char>) -> Seq<Seq<char>>
    decreases s.len(),
{
    if s.len() == 0 {
        seq![Seq::<char>::empty()]
    } else {
        let before = split_words(s.drop_last());
        if is_separator(s.last()) {
            before.push(Seq::<char>::empty())
        } else {
            before.update(before.len() - 1, before.last().push(s.last()))
        }
    }
}

/// The number of characters in all the pieces together.
pub open spec fn pieces_length(pieces: Seq<Seq<char>>) -> int
    decreases pieces.len(),
{
    if pieces.len() == 0 {
        0
    } else {
        pieces_length(pieces.drop_last()) + pieces.last().len()
    }
}

/// The value of a hexadecimal digit, in either case.
pub open spec fn hex_digit(c: char) -> Option<int> {
    if '0' <= c <= '9' {
        Some(c as u32 - '0' as u32)
    } else if 'a' <= c <= 'f' {
        Some(c as u32 - 'a' as u32 + 10)
    } else if 'A' <= c <= 'F' {
        Some(c as u32 - 'A' as u32 + 10)
    } else {
        None
    }
}

/// The number that the hexadecimal digits `digits` write, or `None` where
/// one of them is no such digit.
pub open spec fn digits_value(digits: Seq<char>) -> Option<int>
    decreases digits.len(),
{
    if digits.len() == 0 {
        Some(0)
    } else {
        match (digits_value(digits.drop_last()), hex_digit(digits.last())) {
            (Some(v), Some(d)) => Some(16 * v + d),
            _ => None,
        }
    }
}

/// The piece without its plus sign, where it starts with one.
pub open spec fn digits_of(piece: Seq<char>) -> Seq<char> {
    if piece.len() > 0 && piece[0] == '+' {
        piece.drop_first()
    } else {
        piece
    }
}

/// The instruction word that a piece of the text writes: an optional plus
/// sign and then at least one hexadecimal digit, with a value of at most
/// `0xFFFF`. Any other piece writes none.
pub open spec fn word_value(piece: Seq<char>) -> Option<u16> {
    let digits = digits_of(piece);
    match digits_value(digits) {
        Some(v) => if digits.len() > 0 && v <= 0xFFFF {
            Some(v as u16)
        } else {
            None
        },
        None => None,
    }
}

/// The pieces of a program text: the text is trimmed and then cut at each
/// space and each line feed.
pub open spec fn words_of(text: Seq<char>) -> Seq<Seq<char>> {
    split_words(trimmed(text))
}

/// Whether every piece of the text writes an instruction word.
pub open spec fn all_words_valid(text: Seq<char>) -> bool {
    forall|k: int| 0 <= k < words_of(text).len() ==> word_value(#[trigger] words_of(text)[k]) is Some
}

/// Whether the piece `index` is the first of the text that writes no
/// instruction word.
pub open spec fn is_first_invalid(text: Seq<char>, index: int) -> bool {
    &&& 0 <= index < words_of(text).len()
    &&& word_value(words_of(text)[index]) is None
    &&& forall|k: int| 0 <= k < index ==> word_value(#[trigger] words_of(text)[k]) is Some
}

/// The instruction words of a text all of whose pieces are valid.
pub open spec fn opcodes_of(text: Seq<char>) -> Seq<u16> {
    Seq::new(words_of(text).len(), |k: int| word_value(words_of(text)[k])->0)
}

/// The characters of `text`, in order.
pub fn characters(text: &str) -> (chars: Vec<char>)
    ensures
        chars@ == text@,
{
    let mut chars: Vec<char> = Vec::new();
    for c in it: text.chars()
        invariant
            it.seq() == text@,
            chars@ == it.seq().take(it.index() as int),
    {
        chars.push(c);
        assert(it.seq().take(it.index() + 1) =~= it.seq().take(it.index() as int).push(c));
    }
    assert(text@.take(text@.len() as int) =~= text@);
    chars
}

/// Tells white space from other characters.
pub fn is_whitespace(c: char) -> (b: bool)
    ensures
        b == is_space(c),
{
    let u = c as u32;
    (0x09 <= u && u <= 0x0D) || u == 0x20 || u == 0x85 || u == 0xA0 || u == 0x1680 || (0x2000 <= u
        && u <= 0x200A) || u == 0x2028 || u == 0x2029 || u == 0x202F || u == 0x205F || u == 0x3000
}

/// The value of a hexadecimal digit, or `None` for any other character.
pub fn hex_digit_value(c: char) -> (value: Option<u32>)
    ensures
        match value {
            Some(d) => hex_digit(c) == Some(d as int) && d < 16,
            None => hex_digit(c) is None,
        },
{
    if '0' <= c && c <= '9' {
        Some(c as u32 - '0' as u32)
    } else if 'a' <= c && c <= 'f' {
        Some(c as u32 - 'a' as u32 + 10)
    } else if 'A' <= c && c <= 'F' {
        Some(c as u32 - 'A' as u32 + 10)
    } else {
        None
    }
}

/// Finds where the trimmed text lies in `chars`: the half-open range from
/// `start` to `end`.
pub fn trim_range(chars: &Vec<char>) -> (range: (usize, usize))
    ensures
        range.0 <= range.1 <= chars@.len(),
        chars@.subrange(range.0 as int, range.1 as int) == trimmed(chars@),
{
    let n = chars.len();
    let mut start: usize = 0;
    assert(chars@.subrange(0, n as int) =~= chars@);
    while start < n && is_whitespace(chars[start])
        invariant
            start <= n,
            n == chars@.len(),
            trimmed(chars@) == trimmed(chars@.subrange(start as int, n as int)),
        decreases n - start,
    {
        assert(chars@.subrange(start as int, n as int).drop_first() =~= chars@.subrange(
            start + 1,
            n as int,
        ));
        start += 1;
    }
    let mut end: usize = n;
    while end > start && is_whitespace(chars[end - 1])
        invariant
            start <= end <= n,
            n == chars@.len(),
            start < n ==> !is_space(chars@[start as int]),
            trimmed(chars@) == trimmed(chars@.subrange(start as int, end as int)),
        decreases end - start,
    {
        assert(chars@.subrange(start as int, end as int).drop_last() =~= chars@.subrange(
            start as int,
            end - 1,
        ));
        end -= 1;
    }
    (start, end)
}

/// The state of the reader inside a piece: what it has seen of the piece
/// so far.
struct Piece {
    /// no character yet
    empty: bool,
    /// at least one digit after the sign
    has_digits: bool,
    /// a character that is no digit
    bad: bool,
    /// the digits so far write more than `0xFFFF`
    over: bool,
    /// the number that the digits write, where it is neither bad nor over
    value: u32,
}

impl Piece {
    /// Whether the state is that of a reader that has seen `piece`.
    spec fn matches_piece(self, piece: Seq<char>) -> bool {
        let digits = digits_of(piece);
        &&& self.empty == (piece.len() == 0)
        &&& self.has_digits == (digits.len() > 0)
        &&& self.bad == (digits_value(digits) is None)
        &&& !self.bad ==> (self.over <==> digits_value(digits)->0 > 0xFFFF)
        &&& !self.bad && !self.over ==> self.value == digits_value(digits)->0
    }

    /// The state before the first character of a piece.
    fn start() -> (p: Piece)
        ensures
            p.matches_piece(Seq::<char>::empty()),
    {
        Piece { empty: true, has_digits: false, bad: false, over: false, value: 0 }
    }

    /// The state after one more character `c`.
    fn read(self, c: char, Ghost(piece): Ghost<Seq<char>>) -> (p: Piece)
        requires
            self.matches_piece(piece),
        ensures
            p.matches_piece(piece.push(c)),
    {
        let ghost longer = piece.push(c);
        if self.empty && c == '+' {
            assert(digits_of(longer) =~= Seq::<char>::empty());
            return Piece { empty: false, has_digits: false, bad: false, over: false, value: 0 };
        }
        proof {
            assert(digits_of(longer) =~= digits_of(piece).push(c));
            assert(digits_of(longer).drop_last() =~= digits_of(piece));
        }
        match hex_digit_value(c) {
            Some(d) => {
                if self.bad || self.over {
                    Piece { empty: false, has_digits: true, ..self }
                } else {
                    let value = self.value * 16 + d;
                    Piece {
                        empty: false,
                        has_digits: true,
                        bad: false,
                        over: value > 0xFFFF,
                        value: if value > 0xFFFF { 0 } else { value },
                    }
                }
            },
            None => Piece { empty: false, has_digits: true, bad: true, ..self },
        }
    }

    /// The word that the piece writes, once the piece has ended.
    fn finish(self, Ghost(piece): Ghost<Seq<char>>) -> (word: Option<u16>)
        requires
            self.matches_piece(piece),
        ensures
            word == word_value(piece),
    {
        if self.has_digits && !self.bad && !self.over {
            Some(self.value as u16)
        } else {
            None
        }
    }
}

/// Reads a program text: instruction words in hexadecimal, separated by
/// single spaces or line feeds, with white space allowed at both ends of
/// the text. Gives the words in order, or the index of the first piece
/// that is no word.
pub fn parse_instructions(text: &str) -> (result: Result<Vec<u16>, LoadError>)
    ensures
        match result {
            Ok(opcodes) => all_words_valid(text@) && opcodes@ == opcodes_of(text@),
            Err(LoadError::InvalidWord { index }) => is_first_invalid(text@, index as int),
            Err(LoadError::ProgramTooLarge) => false,
        },
{
    let chars = characters(text);
    let (start, end) = trim_range(&chars);
    let ghost body = trimmed(text@);
    let mut opcodes: Vec<u16> = Vec::new();
    let mut piece = Piece::start();
    let mut i: usize = start;
    proof {
        assert(body.take(0) =~= Seq::<char>::empty());
        lemma_split_nonempty(body);
    }
    while i < end
        invariant
            start <= i <= end <= chars@.len(),
            body == chars@.subrange(start as int, end as int),
            body == trimmed(text@),
            split_words(body.take(i - start)).len() == opcodes@.len() + 1,
            piece.matches_piece(split_words(body.take(i - start)).last()),
            split_words(body).len() >= opcodes@.len() + 1,
            forall|k: int|
                0 <= k < opcodes@.len() ==> word_value(#[trigger] split_words(body)[k]) == Some(
                    opcodes@[k],
                ),
        decreases end - i,
    {
        let c = chars[i];
        let ghost before = split_words(body.take(i - start));
        let ghost after = split_words(body.take(i - start + 1));
        let ghost index = opcodes@.len() as int;
        proof {
            assert(body.take(i - start + 1).drop_last() =~= body.take(i - start));
            assert(body.take(i - start + 1).last() == c);
        }
        if c == ' ' || c == '\n' {
            proof {
                assert(after[index] == before.last());
                lemma_split_keeps_finished(body, i - start + 1, index);
            }
            match piece.finish(Ghost(before.last())) {
                Some(word) => {
                    opcodes.push(word);
                },
                None => {
                    return Err(LoadError::InvalidWord { index: opcodes.len() });
                },
            }
            piece = Piece::start();
        } else {
            piece = piece.read(c, Ghost(before.last()));
        }
        i += 1;
    }
    proof {
        assert(body.take(body.len() as int) =~= body);
    }
    match piece.finish(Ghost(split_words(body).last())) {
        Some(word) => {
            opcodes.push(word);
            proof {
                assert(opcodes@ =~= opcodes_of(text@));
            }
            Ok(opcodes)
        },
        None => Err(LoadError::InvalidWord { index: opcodes.len() }),
    }
}

/// Reading on does not change a piece that has ended: piece `k` of the
/// first `n` characters, where it is not the last piece there, is piece `k`
/// of the whole text.
proof fn lemma_split_keeps_finished(s: Seq<char>, n: int, k: int)
    requires
        0 <= n <= s.len(),
        0 <= k < split_words(s.take(n)).len() - 1,
    ensures
        split_words(s).len() >= split_words(s.take(n)).len(),
        split_words(s)[k] == split_words(s.take(n))[k],
{
    lemma_split_prefix(s, n, s.len() as int, k);
    assert(s.take(s.len() as int) =~= s);
}

/// There is always at least one piece.
proof fn lemma_split_nonempty(s: Seq<char>)
    ensures
        split_words(s).len() >= 1,
    decreases s.len(),
{
    if s.len() > 0 {
        lemma_split_nonempty(s.drop_last());
    }
}

/// A piece that has ended in the first `n` characters is the same piece in
/// the first `m`, for `m` from `n` on.
proof fn lemma_split_prefix(s: Seq<char>, n: int, m: int, k: int)
    requires
        0 <= n <= m <= s.len(),
        0 <= k < split_words(s.take(n)).len() - 1,
    ensures
        split_words(s.take(m))[k] == split_words(s.take(n))[k],
        split_words(s.take(m)).len() >= split_words(s.take(n)).len(),
    decreases m - n,
{
    if m > n {
        lemma_split_prefix(s, n, m - 1, k);
        lemma_split_nonempty(s.take(m - 1));
        assert(s.take(m).drop_last() =~= s.take(m - 1));
    }
}

} // verus!
