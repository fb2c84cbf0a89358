//! Fixed-capacity text used for every rendered payload.
//!
//! A `TextBuf` behaves like a fixed-capacity string: a piece is appended whole
//! when its UTF-8 bytes still fit in the capacity, and is dropped whole
//! otherwise. Rendering functions append a list of pieces, so their results are
//! stated as a bounded fold of those pieces.
use vstd::prelude::*;
use vstd::utf8::encode_utf8;

verus! {

/// Number of bytes of the UTF-8 encoding of `s`.
pub open spec fn utf8_len(s: Seq<char>) -> nat {
    encode_utf8(s).len()
}

/// Appending one piece to a text of capacity `cap`: all of it, or nothing.
pub open spec fn bounded_push(acc: Seq<char>, piece: Seq<char>, cap: nat) -> Seq<char> {
    if utf8_len(acc) + utf8_len(piece) <= cap {
        acc + piece
    } else {
        acc
    }
}

/// One formatted write: pieces are appended in order until one does not
/// fit; that piece and all after it are dropped.
pub open spec fn write_fold(acc: Seq<char>, pieces: Seq<Seq<char>>, cap: nat) -> Seq<char>
    decreases pieces.len(),
{
    if pieces.len() == 0 {
        acc
    } else if utf8_len(acc) + utf8_len(pieces[0]) <= cap {
        write_fold(acc + pieces[0], pieces.drop_first(), cap)
    } else {
        acc
    }
}

/// A sequence of formatted writes, each one on what the previous ones left.
pub open spec fn render_groups(acc: Seq<char>, groups: Seq<Seq<Seq<char>>>, cap: nat) -> Seq<char>
    decreases groups.len(),
{
    if groups.len() == 0 {
        acc
    } else {
        render_groups(write_fold(acc, groups[0], cap), groups.drop_first(), cap)
    }
}

/// Whether all of `pieces`, written after `acc`, fit in `cap` bytes.
pub open spec fn fits_after(acc: Seq<char>, pieces: Seq<Seq<char>>, cap: nat) -> bool {
    utf8_len(acc + pieces.flatten()) <= cap
}

/// The texts of a list of owned pieces.
pub open spec fn texts(pieces: Seq<String>) -> Seq<Seq<char>> {
    pieces.map_values(|p: String| p@)
}

/// The texts of two lists of pieces, one after the other.
pub proof fn lemma_texts_append(a: Seq<String>, b: Seq<String>)
    ensures
        texts(a + b) == texts(a) + texts(b),
{
    assert(texts(a + b) =~= texts(a) + texts(b));
}

/// Appends the pieces of `part` to `pieces`.
pub(crate) fn extend(pieces: &mut Vec<String>, part: Vec<String>)
    ensures
        texts(final(pieces)@) == texts(old(pieces)@) + texts(part@),
{
    let mut part = part;
    proof {
        lemma_texts_append(pieces@, part@);
    }
    pieces.append(&mut part);
}

/// All the text of a sequence of writes.
pub open spec fn groups_text(groups: Seq<Seq<Seq<char>>>) -> Seq<char> {
    groups.map_values(|g: Seq<Seq<char>>| g.flatten()).flatten()
}

pub proof fn lemma_encode_utf8_append(a: Seq<char>, b: Seq<char>)
    ensures
        encode_utf8(a + b) == encode_utf8(a) + encode_utf8(b),
    decreases a.len(),
{
    if a.len() == 0 {
        assert(a + b =~= b);
        assert(encode_utf8(a) + encode_utf8(b) =~= encode_utf8(b));
    } else {
        lemma_encode_utf8_append(a.drop_first(), b);
        assert((a + b).drop_first() =~= a.drop_first() + b);
        assert((a + b)[0] == a[0]);
        let e0 = vstd::utf8::encode_scalar(a[0] as u32);
        assert(encode_utf8(a + b) == e0 + encode_utf8(a.drop_first() + b));
        assert(encode_utf8(a) == e0 + encode_utf8(a.drop_first()));
        assert(encode_utf8(a + b) =~= encode_utf8(a) + encode_utf8(b));
    }
}

pub proof fn lemma_utf8_len_append(a: Seq<char>, b: Seq<char>)
    ensures
        utf8_len(a + b) == utf8_len(a) + utf8_len(b),
{
    lemma_encode_utf8_append(a, b);
}

/// A write whose whole text fits appends all of it.
pub proof fn lemma_write_fold_fits(acc: Seq<char>, pieces: Seq<Seq<char>>, cap: nat)
    requires
        utf8_len(acc + pieces.flatten()) <= cap,
    ensures
        write_fold(acc, pieces, cap) == acc + pieces.flatten(),
    decreases pieces.len(),
{
    if pieces.len() == 0 {
        assert(acc + pieces.flatten() =~= acc);
    } else {
        assert(pieces.flatten() =~= pieces[0] + pieces.drop_first().flatten());
        assert(acc + pieces.flatten() =~= (acc + pieces[0]) + pieces.drop_first().flatten());
        lemma_utf8_len_append(acc + pieces[0], pieces.drop_first().flatten());
        lemma_utf8_len_append(acc, pieces[0]);
        lemma_write_fold_fits(acc + pieces[0], pieces.drop_first(), cap);
    }
}

/// Writes whose whole text fits append all of it.
pub proof fn lemma_render_groups_fits(acc: Seq<char>, groups: Seq<Seq<Seq<char>>>, cap: nat)
    requires
        utf8_len(acc + groups_text(groups)) <= cap,
    ensures
        render_groups(acc, groups, cap) == acc + groups_text(groups),
    decreases groups.len(),
{
    if groups.len() == 0 {
        assert(groups_text(groups) =~= Seq::<char>::empty());
        assert(acc + groups_text(groups) =~= acc);
    } else {
        let rest = groups.drop_first();
        assert(groups.map_values(|g: Seq<Seq<char>>| g.flatten()) =~= seq![groups[0].flatten()]
            + rest.map_values(|g: Seq<Seq<char>>| g.flatten()));
        assert(groups_text(groups) =~= groups[0].flatten() + groups_text(rest)) by {
            vstd::seq_lib::lemma_flatten_concat(
                seq![groups[0].flatten()],
                rest.map_values(|g: Seq<Seq<char>>| g.flatten()),
            );
            seq![groups[0].flatten()].lemma_flatten_one_element();
        }
        assert(acc + groups_text(groups) =~= (acc + groups[0].flatten()) + groups_text(rest));
        lemma_utf8_len_append(acc + groups[0].flatten(), groups_text(rest));
        lemma_utf8_len_append(acc, groups[0].flatten());
        lemma_write_fold_fits(acc, groups[0], cap);
        lemma_render_groups_fits(acc + groups[0].flatten(), rest, cap);
    }
}

/// Writes done one after the other: the first groups, then the rest.
pub proof fn lemma_render_groups_append(
    acc: Seq<char>,
    g1: Seq<Seq<Seq<char>>>,
    g2: Seq<Seq<Seq<char>>>,
    cap: nat,
)
    ensures
        render_groups(acc, g1 + g2, cap) == render_groups(render_groups(acc, g1, cap), g2, cap),
    decreases g1.len(),
{
    if g1.len() == 0 {
        assert(g1 + g2 =~= g2);
    } else {
        assert((g1 + g2)[0] == g1[0]);
        assert((g1 + g2).drop_first() =~= g1.drop_first() + g2);
        lemma_render_groups_append(write_fold(acc, g1[0], cap), g1.drop_first(), g2, cap);
    }
}

/// One more write after a sequence of writes.
pub proof fn lemma_render_groups_push(
    acc: Seq<char>,
    groups: Seq<Seq<Seq<char>>>,
    g: Seq<Seq<char>>,
    cap: nat,
)
    ensures
        render_groups(acc, groups.push(g), cap) == write_fold(render_groups(acc, groups, cap), g, cap),
{
    lemma_render_groups_append(acc, groups, seq![g], cap);
    assert(groups + seq![g] =~= groups.push(g));
    assert(seq![g].drop_first() =~= Seq::<Seq<Seq<char>>>::empty());
    let r = render_groups(acc, groups, cap);
    assert(render_groups(r, seq![g], cap) == render_groups(
        write_fold(r, seq![g][0], cap),
        seq![g].drop_first(),
        cap,
    ));
}

/// Appending one piece whole or not at all is a write of that one piece.
pub proof fn lemma_push_is_write(acc: Seq<char>, piece: Seq<char>, cap: nat)
    ensures
        bounded_push(acc, piece, cap) == write_fold(acc, seq![piece], cap),
{
    assert(seq![piece].drop_first() =~= Seq::<Seq<char>>::empty());
    assert(write_fold(acc + piece, seq![piece].drop_first(), cap) == acc + piece);
}

/// The formatted writes that escape one character for JSON (see
/// `TextBuf::push_json_escaped`).
pub open spec fn char_escape_pieces(c: char, c1_controls: bool) -> Seq<Seq<char>> {
    if c == '"' || c == '\\' || c == '\n' || c == '\r' || c == '\t' {
        seq![escape_char(c, c1_controls)]
    } else if (c as u32) < 0x20 || (c1_controls && is_control_char(c)) {
        if (c as u32) < 16 {
            seq![seq!['\\', 'u'], seq!['0'], seq!['0'], seq!['0'], hex_chars(c as nat, 1, false)]
        } else {
            seq![seq!['\\', 'u'], seq!['0'], seq!['0'], hex_chars(c as nat, 2, false)]
        }
    } else {
        seq![seq![c]]
    }
}

/// The writes that escape a whole string, one group per character.
pub open spec fn escape_groups(s: Seq<char>, c1_controls: bool) -> Seq<Seq<Seq<char>>> {
    s.map_values(|c: char| char_escape_pieces(c, c1_controls))
}

/// Text whose UTF-8 encoding never exceeds a fixed number of bytes.
#[derive(Debug, PartialEq, Eq)]
pub struct TextBuf {
    text: String,
    cap: usize,
}

impl View for TextBuf {
    type V = Seq<char>;

    closed spec fn view(&self) -> Seq<char> {
        self.text@
    }
}

impl TextBuf {
    #[verifier::type_invariant]
    closed spec fn fits(&self) -> bool {
        utf8_len(self.text@) <= self.cap
    }

    /// The capacity, in bytes.
    pub closed spec fn capacity(&self) -> nat {
        self.cap as nat
    }

    /// An empty text of `cap` bytes.
    pub fn with_capacity(cap: usize) -> (t: TextBuf)
        ensures
            t@ == Seq::<char>::empty(),
            t.capacity() == cap,
    {
        let t = TextBuf { text: String::new(), cap };
        assert(encode_utf8(t.text@) =~= Seq::<u8>::empty());
        t
    }

    /// Byte length of the UTF-8 encoding.
    pub fn len(&self) -> (n: usize)
        ensures
            n == utf8_len(self@),
    {
        self.text.as_str().as_bytes().len()
    }

    pub fn is_empty(&self) -> (b: bool)
        ensures
            b == (self@.len() == 0),
    {
        self.text.as_str().is_empty()
    }

    pub fn as_str(&self) -> (s: &str)
        ensures
            s@ == self@,
            utf8_len(self@) <= self.capacity(),
    {
        proof {
            use_type_invariant(self);
        }
        self.text.as_str()
    }

    /// Appends `piece` whole if it fits; returns whether it was appended.
    pub fn push_str(&mut self, piece: &str) -> (appended: bool)
        ensures
            final(self).capacity() == old(self).capacity(),
            final(self)@ == bounded_push(old(self)@, piece@, old(self).capacity()),
            appended == (utf8_len(old(self)@) + utf8_len(piece@) <= old(self).capacity()),
    {
        proof {
            use_type_invariant(&*self);
        }
        let cur = self.text.as_str().as_bytes().len();
        let add = piece.as_bytes().len();
        if add <= self.cap && cur <= self.cap - add {
            let mut next = self.text.clone();
            next.append(piece);
            proof {
                lemma_utf8_len_append(self.text@, piece@);
            }
            self.text = next;
            true
        } else {
            false
        }
    }

    /// Appends one character if its UTF-8 bytes fit.
    pub fn push(&mut self, c: char) -> (appended: bool)
        ensures
            final(self).capacity() == old(self).capacity(),
            final(self)@ == bounded_push(old(self)@, seq![c], old(self).capacity()),
            appended == (utf8_len(old(self)@) + utf8_len(seq![c]) <= old(self).capacity()),
    {
        let mut one = String::new();
        push_char(&mut one, c);
        assert(one@ =~= seq![c]);
        self.push_str(one.as_str())
    }

    /// Removes all content; the capacity stays.
    pub fn clear(&mut self)
        ensures
            final(self)@ == Seq::<char>::empty(),
            final(self).capacity() == old(self).capacity(),
    {
        let empty = String::new();
        assert(encode_utf8(empty@) =~= Seq::<u8>::empty());
        self.text = empty;
    }

    /// One formatted write: appends the pieces in order and stops at the
    /// first that does not fit. Returns whether all were appended.
    pub fn write_all(&mut self, pieces: &Vec<&str>) -> (complete: bool)
        ensures
            final(self).capacity() == old(self).capacity(),
            final(self)@ == write_fold(
                old(self)@,
                pieces@.map_values(|p: &str| p@),
                old(self).capacity(),
            ),
            complete == fits_after(
                old(self)@,
                pieces@.map_values(|p: &str| p@),
                old(self).capacity(),
            ),
    {
        let ghost all = pieces@.map_values(|p: &str| p@);
        let mut i: usize = 0;
        assert(all.subrange(0, all.len() as int) =~= all);
        while i < pieces.len()
            invariant
                0 <= i <= pieces.len(),
                all == pieces@.map_values(|p: &str| p@),
                self.capacity() == old(self).capacity(),
                write_fold(old(self)@, all, self.capacity()) == write_fold(
                    self@,
                    all.subrange(i as int, all.len() as int),
                    self.capacity(),
                ),
                old(self)@ + all.flatten() == self@ + all.subrange(i as int, all.len() as int).flatten(),
            decreases pieces.len() - i,
        {
            let ghost rest = all.subrange(i as int, all.len() as int);
            assert(rest[0] == pieces@[i as int]@);
            assert(rest.drop_first() =~= all.subrange(i + 1, all.len() as int));
            assert(rest.flatten() == rest[0] + rest.drop_first().flatten());
            let ghost before = self@;
            if !self.push_str(pieces[i]) {
                proof {
                    assert(before + rest.flatten() =~= (before + rest[0]) + rest.drop_first().flatten());
                    lemma_utf8_len_append(before + rest[0], rest.drop_first().flatten());
                    lemma_utf8_len_append(before, rest[0]);
                }
                return false;
            }
            assert(before + rest.flatten() =~= self@ + rest.drop_first().flatten());
            i = i + 1;
        }
        assert(all.subrange(i as int, all.len() as int) =~= Seq::<Seq<char>>::empty());
        assert(self@ + Seq::<Seq<char>>::empty().flatten() =~= self@);
        proof {
            use_type_invariant(&*self);
        }
        true
    }

    /// `write_all` on owned pieces.
    pub fn write_texts(&mut self, pieces: &Vec<String>) -> (complete: bool)
        ensures
            final(self).capacity() == old(self).capacity(),
            final(self)@ == write_fold(old(self)@, texts(pieces@), old(self).capacity()),
            complete == fits_after(old(self)@, texts(pieces@), old(self).capacity()),
    {
        let mut refs: Vec<&str> = Vec::new();
        let mut i: usize = 0;
        while i < pieces.len()
            invariant
                0 <= i <= pieces.len(),
                refs@.len() == i,
                forall|j: int| 0 <= j < i ==> #[trigger] refs@[j]@ == pieces@[j]@,
            decreases pieces.len() - i,
        {
            refs.push(pieces[i].as_str());
            i = i + 1;
        }
        assert(refs@.map_values(|p: &str| p@) =~= texts(pieces@));
        self.write_all(&refs)
    }

    /// Appends `value` JSON-escaped, character by character: `"`, `\`, line
    /// feed, carriage return and tab as two-character escapes, other control
    /// characters (below U+0020, and with `c1_controls` also U+007F..U+009F) as
    /// `\u` and four hex digits, written as one formatted write; each other
    /// character as itself. An escape that does not fit is dropped and the
    /// next character is tried.
    pub fn push_json_escaped(&mut self, value: &str, c1_controls: bool)
        ensures
            final(self).capacity() == old(self).capacity(),
            final(self)@ == render_groups(
                old(self)@,
                escape_groups(value@, c1_controls),
                old(self).capacity(),
            ),
    {
        let n = value.unicode_len();
        let mut i: usize = 0;
        while i < n
            invariant
                0 <= i <= n,
                n == value@.len(),
                self.capacity() == old(self).capacity(),
                self@ == render_groups(
                    old(self)@,
                    escape_groups(value@.subrange(0, i as int), c1_controls),
                    self.capacity(),
                ),
            decreases n - i,
        {
            let c = value.get_char(i);
            let ghost before = self@;
            self.write_escaped_char(c, c1_controls);
            proof {
                let prefix = value@.subrange(0, i as int);
                let next = value@.subrange(0, i + 1);
                assert(next =~= prefix.push(c));
                assert(escape_groups(next, c1_controls) =~= escape_groups(prefix, c1_controls)
                    + seq![char_escape_pieces(c, c1_controls)]);
                lemma_render_groups_append(
                    old(self)@,
                    escape_groups(prefix, c1_controls),
                    seq![char_escape_pieces(c, c1_controls)],
                    self.capacity(),
                );
                let g = seq![char_escape_pieces(c, c1_controls)];
                assert(g.drop_first() =~= Seq::<Seq<Seq<char>>>::empty());
                assert(render_groups(before, g, self.capacity()) == render_groups(
                    write_fold(before, g[0], self.capacity()),
                    g.drop_first(),
                    self.capacity(),
                ));
            }
            i = i + 1;
        }
        assert(value@.subrange(0, n as int) =~= value@);
    }

    fn write_escaped_char(&mut self, c: char, c1_controls: bool)
        ensures
            final(self).capacity() == old(self).capacity(),
            final(self)@ == write_fold(
                old(self)@,
                char_escape_pieces(c, c1_controls),
                old(self).capacity(),
            ),
    {
        let code = c as u32;
        let piece: String;
        let pieces: Vec<&str>;
        proof {
            reveal_strlit("\\u");
            reveal_strlit("0");
        }
        if c == '"' {
            pieces = vec!["\\\""];
            proof {
                reveal_strlit("\\\"");
            }
        } else if c == '\\' {
            pieces = vec!["\\\\"];
            proof {
                reveal_strlit("\\\\");
            }
        } else if c == '\n' {
            pieces = vec!["\\n"];
            proof {
                reveal_strlit("\\n");
            }
        } else if c == '\r' {
            pieces = vec!["\\r"];
            proof {
                reveal_strlit("\\r");
            }
        } else if c == '\t' {
            pieces = vec!["\\t"];
            proof {
                reveal_strlit("\\t");
            }
        } else if code < 0x20 || (c1_controls && 0x7f <= code && code <= 0x9f) {
            if code < 16 {
                piece = hex_fixed(code as u64, 1, false);
                pieces = vec!["\\u", "0", "0", "0", piece.as_str()];
            } else {
                piece = hex_fixed(code as u64, 2, false);
                pieces = vec!["\\u", "0", "0", piece.as_str()];
            }
        } else {
            let mut one = String::new();
            push_char(&mut one, c);
            piece = one;
            pieces = vec![piece.as_str()];
        }
        let ghost expected = char_escape_pieces(c, c1_controls);
        assert(pieces@.len() == expected.len());
        assert(forall|j: int| 0 <= j < pieces@.len() ==> #[trigger] pieces@[j]@ =~= expected[j]);
        assert(pieces@.map_values(|p: &str| p@) =~= expected);
        self.write_all(&pieces);
    }
}

/// The views of a list of pieces.
pub open spec fn pieces_view(pieces: Seq<&str>) -> Seq<Seq<char>> {
    pieces.map_values(|p: &str| p@)
}

/// One more formatted write on a text built by the writes `done` from `start`.
pub(crate) fn emit(
    out: &mut TextBuf,
    pieces: &Vec<&str>,
    Ghost(start): Ghost<Seq<char>>,
    Ghost(done): Ghost<Seq<Seq<Seq<char>>>>,
)
    requires
        old(out)@ == render_groups(start, done, old(out).capacity()),
    ensures
        final(out).capacity() == old(out).capacity(),
        final(out)@ == render_groups(start, done.push(pieces_view(pieces@)), old(out).capacity()),
{
    proof {
        lemma_render_groups_push(start, done, pieces_view(pieces@), out.capacity());
    }
    out.write_all(pieces);
}

impl Clone for TextBuf {
    fn clone(&self) -> (t: TextBuf)
        ensures
            t@ == self@,
            t.capacity() == self.capacity(),
    {
        proof {
            use_type_invariant(self);
        }
        TextBuf { text: self.text.clone(), cap: self.cap }
    }
}

/// The decimal digit `d` as a character.
pub open spec fn digit_char(d: nat) -> char {
    (d + 48) as char
}

/// Decimal representation of `n`, without sign or leading zeros.
pub open spec fn dec_chars(n: nat) -> Seq<char>
    decreases n,
{
    if n < 10 {
        seq![digit_char(n)]
    } else {
        dec_chars(n / 10).push(digit_char(n % 10))
    }
}

/// Decimal representation of a signed integer, with a leading `-` when negative.
pub open spec fn signed_dec_chars(v: int) -> Seq<char> {
    if v < 0 {
        seq!['-'] + dec_chars((-v) as nat)
    } else {
        dec_chars(v as nat)
    }
}

/// One hexadecimal digit, lower or upper case.
pub open spec fn hex_digit_char(d: nat, upper: bool) -> char {
    if d < 10 {
        (d + 48) as char
    } else if upper {
        (d + 55) as char
    } else {
        (d + 87) as char
    }
}

/// The `width` lowest hexadecimal digits of `v`, most significant first.
pub open spec fn hex_chars(v: nat, width: nat, upper: bool) -> Seq<char>
    decreases width,
{
    if width == 0 {
        Seq::empty()
    } else {
        hex_chars(v / 16, (width - 1) as nat, upper).push(hex_digit_char(v % 16, upper))
    }
}

fn digit(d: u8) -> (c: char)
    requires
        d < 10,
    ensures
        c == digit_char(d as nat),
{
    (d + 48) as char
}

fn hex_digit(d: u8, upper: bool) -> (c: char)
    requires
        d < 16,
    ensures
        c == hex_digit_char(d as nat, upper),
{
    if d < 10 {
        (d + 48) as char
    } else if upper {
        (d + 55) as char
    } else {
        (d + 87) as char
    }
}

/// Decimal text of an unsigned integer.
pub fn decimal(n: u64) -> (s: String)
    ensures
        s@ == dec_chars(n as nat),
    decreases n,
{
    if n < 10 {
        let mut s = String::new();
        push_char(&mut s, digit(n as u8));
        assert(s@ =~= seq![digit_char(n as nat)]);
        s
    } else {
        let mut s = decimal(n / 10);
        push_char(&mut s, digit((n % 10) as u8));
        s
    }
}

/// Decimal text of a signed integer.
pub fn signed_decimal(v: i64) -> (s: String)
    ensures
        s@ == signed_dec_chars(v as int),
{
    if v < 0 {
        let magnitude: u64 = if v == i64::MIN {
            9223372036854775808u64
        } else {
            (-v) as u64
        };
        let digits = decimal(magnitude);
        let mut s = String::new();
        push_char(&mut s, '-');
        s.append(digits.as_str());
        assert(s@ =~= seq!['-'] + dec_chars((-v) as nat));
        s
    } else {
        decimal(v as u64)
    }
}

/// The `width` lowest hexadecimal digits of `v`.
pub fn hex_fixed(v: u64, width: u8, upper: bool) -> (s: String)
    ensures
        s@ == hex_chars(v as nat, width as nat, upper),
    decreases width,
{
    if width == 0 {
        let s = String::new();
        assert(s@ =~= Seq::<char>::empty());
        s
    } else {
        let mut s = hex_fixed(v / 16, width - 1, upper);
        push_char(&mut s, hex_digit((v % 16) as u8, upper));
        s
    }
}

/// ASCII text has one byte per character.
pub proof fn lemma_ascii_utf8_len(s: Seq<char>)
    requires
        vstd::utf8::is_ascii_chars(s),
    ensures
        utf8_len(s) == s.len(),
{
    vstd::utf8::is_ascii_chars_encode_utf8(s);
}

pub proof fn lemma_hex_chars_ascii(v: nat, width: nat, upper: bool)
    ensures
        vstd::utf8::is_ascii_chars(hex_chars(v, width, upper)),
        hex_chars(v, width, upper).len() == width,
    decreases width,
{
    if width > 0 {
        lemma_hex_chars_ascii(v / 16, (width - 1) as nat, upper);
        let d = v % 16;
        assert('\0' <= hex_digit_char(d, upper) <= '\u{7f}');
    }
}

pub proof fn lemma_dec_chars_ascii(n: nat)
    ensures
        vstd::utf8::is_ascii_chars(dec_chars(n)),
        dec_chars(n).len() >= 1,
    decreases n,
{
    if n >= 10 {
        lemma_dec_chars_ascii(n / 10);
    }
}

/// Whether `c` is a Unicode control character (general category Cc).
pub open spec fn is_control_char(c: char) -> bool {
    (c as u32) < 0x20 || (0x7f <= (c as u32) && (c as u32) <= 0x9f)
}

/// JSON escaping of one character. With `c1_controls` the characters
/// U+007F..U+009F are escaped too; otherwise only those below U+0020.
pub open spec fn escape_char(c: char, c1_controls: bool) -> Seq<char> {
    if c == '"' {
        seq!['\\', '"']
    } else if c == '\\' {
        seq!['\\', '\\']
    } else if c == '\n' {
        seq!['\\', 'n']
    } else if c == '\r' {
        seq!['\\', 'r']
    } else if c == '\t' {
        seq!['\\', 't']
    } else if (c as u32) < 0x20 || (c1_controls && is_control_char(c)) {
        seq!['\\', 'u'] + hex_chars(c as nat, 4, false)
    } else {
        seq![c]
    }
}

/// JSON escaping of a whole string, character by character.
pub open spec fn json_escape(s: Seq<char>, c1_controls: bool) -> Seq<char>
    decreases s.len(),
{
    if s.len() == 0 {
        Seq::empty()
    } else {
        json_escape(s.drop_last(), c1_controls) + escape_char(s.last(), c1_controls)
    }
}

/// Character-wise equality of two strings.
pub fn str_eq(a: &str, b: &str) -> (r: bool)
    ensures
        r == (a@ == b@),
{
    let n = a.unicode_len();
    if n != b.unicode_len() {
        return false;
    }
    let mut i: usize = 0;
    while i < n
        invariant
            0 <= i <= n,
            n == a@.len(),
            n == b@.len(),
            forall|j: int| 0 <= j < i ==> a@[j] == b@[j],
        decreases n - i,
    {
        if a.get_char(i) != b.get_char(i) {
            return false;
        }
        i = i + 1;
    }
    assert(a@ =~= b@);
    true
}

/// Index of the first occurrence of `c` in `s`, if any.
pub open spec fn index_of(s: Seq<char>, c: char) -> Option<int>
    decreases s.len(),
{
    if s.len() == 0 {
        None
    } else if s[0] == c {
        Some(0)
    } else {
        match index_of(s.drop_first(), c) {
            Some(i) => Some(i + 1),
            None => None,
        }
    }
}

pub proof fn lemma_index_of(s: Seq<char>, c: char)
    ensures
        match index_of(s, c) {
            Some(i) => 0 <= i < s.len() && s[i] == c && forall|j: int| 0 <= j < i ==> s[j] != c,
            None => forall|j: int| 0 <= j < s.len() ==> s[j] != c,
        },
    decreases s.len(),
{
    if s.len() > 0 && s[0] != c {
        lemma_index_of(s.drop_first(), c);
        match index_of(s.drop_first(), c) {
            Some(i) => {
                assert forall|j: int| 0 <= j < i + 1 implies s[j] != c by {
                    if j > 0 {
                        assert(s[j] == s.drop_first()[j - 1]);
                    }
                }
            },
            None => {
                assert forall|j: int| 0 <= j < s.len() implies s[j] != c by {
                    if j > 0 {
                        assert(s[j] == s.drop_first()[j - 1]);
                    }
                }
            },
        }
    }
}

pub proof fn lemma_index_of_unique(s: Seq<char>, c: char, i: int)
    requires
        0 <= i < s.len(),
        s[i] == c,
        forall|j: int| 0 <= j < i ==> s[j] != c,
    ensures
        index_of(s, c) == Some(i),
{
    lemma_index_of(s, c);
}

/// Finds the first occurrence of `c`.
pub fn find_char(s: &str, c: char) -> (r: Option<usize>)
    ensures
        r matches Some(i) ==> index_of(s@, c) == Some(i as int),
        r is None ==> index_of(s@, c) is None,
{
    let n = s.unicode_len();
    let mut i: usize = 0;
    while i < n
        invariant
            0 <= i <= n,
            n == s@.len(),
            forall|j: int| 0 <= j < i ==> s@[j] != c,
        decreases n - i,
    {
        if s.get_char(i) == c {
            proof {
                lemma_index_of_unique(s@, c, i as int);
            }
            return Some(i);
        }
        i = i + 1;
    }
    proof {
        lemma_index_of(s@, c);
    }
    None
}

/// `s.split_once(c)`: the parts before and after the first `c`.
pub open spec fn split_once(s: Seq<char>, c: char) -> Option<(Seq<char>, Seq<char>)> {
    match index_of(s, c) {
        Some(i) => Some((s.subrange(0, i), s.subrange(i + 1, s.len() as int))),
        None => None,
    }
}

pub fn split_once_str<'a>(s: &'a str, c: char) -> (r: Option<(&'a str, &'a str)>)
    ensures
        match r {
            Some((a, b)) => split_once(s@, c) == Some((a@, b@)),
            None => split_once(s@, c) is None,
        },
{
    match find_char(s, c) {
        Some(i) => {
            proof {
                lemma_index_of(s@, c);
            }
            let n = s.unicode_len();
            let a = s.substring_char(0, i);
            let b = s.substring_char(i + 1, n);
            Some((a, b))
        },
        None => None,
    }
}

/// `s.strip_prefix(p)`: the rest of `s` after the prefix `p`, when `s` starts with it.
pub open spec fn strip_prefix(s: Seq<char>, p: Seq<char>) -> Option<Seq<char>> {
    if p.len() <= s.len() && s.subrange(0, p.len() as int) == p {
        Some(s.subrange(p.len() as int, s.len() as int))
    } else {
        None
    }
}

pub fn strip_prefix_str<'a>(s: &'a str, p: &str) -> (r: Option<&'a str>)
    ensures
        match r {
            Some(rest) => strip_prefix(s@, p@) == Some(rest@),
            None => strip_prefix(s@, p@) is None,
        },
{
    let n = s.unicode_len();
    let m = p.unicode_len();
    if m > n {
        return None;
    }
    let head = s.substring_char(0, m);
    if str_eq(head, p) {
        Some(s.substring_char(m, n))
    } else {
        None
    }
}

/// `core::str::from_utf8`, as an `Option`: the bytes read as text when they
/// are valid UTF-8, none otherwise.
#[verifier::external_body]
pub(crate) fn str_from_utf8(bytes: &[u8]) -> (r: Option<&str>)
    ensures
        r is Some <==> vstd::utf8::valid_utf8(bytes@),
        r matches Some(s) ==> s@ == vstd::utf8::decode_utf8(bytes@),
{
    core::str::from_utf8(bytes).ok()
}

/// `String::push`: appends the character to the end of the string.
#[verifier::external_body]
fn push_char(s: &mut String, c: char)
    ensures
        final(s)@ == old(s)@.push(c),
{
    s.push(c);
}

} // verus!
