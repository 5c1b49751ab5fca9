use vstd::prelude::*;

use crate::text::{hex2, push_char, push_hex2};

verus! {

/// The linker-script directive that emits one byte: `    BYTE(0xNN);`.
pub open spec fn directive_line(b: u8) -> Seq<char> {
    seq![' ', ' ', ' ', ' ', 'B', 'Y', 'T', 'E', '(', '0', 'x'] + hex2(b) + seq![')', ';']
}

/// One directive per byte, joined with newlines.
pub open spec fn directives(bs: Seq<u8>) -> Seq<char>
    decreases bs.len(),
{
    if bs.len() == 0 {
        Seq::empty()
    } else if bs.len() == 1 {
        directive_line(bs[0])
    } else {
        directives(bs.drop_last()) + seq!['\n'] + directive_line(bs.last())
    }
}

/// Formats raw bytes as `    BYTE(0xNN);` linker-script directives, one per line.
pub fn bytes_to_linker_directives(bytes: &[u8]) -> (r: String)
    ensures
        r@ == directives(bytes@),
{
    let mut out = String::new();
    let mut i: usize = 0;
    while i < bytes.len()
        invariant
            i <= bytes@.len(),
            out@ == directives(bytes@.take(i as int)),
        decreases bytes@.len() - i,
    {
        let ghost before = out@;
        proof {
            assert(bytes@.take(i + 1).drop_last() =~= bytes@.take(i as int));
        }
        if i > 0 {
            push_char(&mut out, '\n');
        }
        out.append("    BYTE(0x");
        proof {
            reveal_strlit("    BYTE(0x");
        }
        push_hex2(&mut out, bytes[i]);
        push_char(&mut out, ')');
        push_char(&mut out, ';');
        i = i + 1;
        proof {
            if i == 1 {
                assert(out@ =~= directives(bytes@.take(i as int)));
            } else {
                assert(out@ =~= directives(bytes@.take(i as int)));
            }
        }
    }
    proof {
        assert(bytes@.take(bytes@.len() as int) =~= bytes@);
    }
    out
}

/// A piece of generated linker-script text: literal text, or bytes that
/// are emitted as `BYTE` directives.
pub enum Piece {
    Text(Seq<char>),
    Bytes(Seq<u8>),
}

/// The text a piece contributes to the script.
pub open spec fn render_piece(p: Piece) -> Seq<char> {
    match p {
        Piece::Text(t) => t,
        Piece::Bytes(b) => directives(b),
    }
}

/// The bytes a piece places in the output section.
pub open spec fn piece_bytes(p: Piece) -> Seq<u8> {
    match p {
        Piece::Text(_) => Seq::empty(),
        Piece::Bytes(b) => b,
    }
}

/// The script text of a sequence of pieces.
pub open spec fn render(ps: Seq<Piece>) -> Seq<char>
    decreases ps.len(),
{
    if ps.len() == 0 {
        Seq::empty()
    } else {
        render(ps.drop_last()) + render_piece(ps.last())
    }
}

/// The bytes a sequence of pieces places in the output section, in order.
pub open spec fn payload(ps: Seq<Piece>) -> Seq<u8>
    decreases ps.len(),
{
    if ps.len() == 0 {
        Seq::empty()
    } else {
        payload(ps.drop_last()) + piece_bytes(ps.last())
    }
}

pub proof fn lemma_render_push(ps: Seq<Piece>, p: Piece)
    ensures
        render(ps.push(p)) == render(ps) + render_piece(p),
        payload(ps.push(p)) == payload(ps) + piece_bytes(p),
{
    assert(ps.push(p).drop_last() =~= ps);
}

pub proof fn lemma_render_concat(a: Seq<Piece>, b: Seq<Piece>)
    ensures
        render(a + b) == render(a) + render(b),
        payload(a + b) == payload(a) + payload(b),
    decreases b.len(),
{
    if b.len() == 0 {
        assert(a + b =~= a);
        assert(render(a) + render(b) =~= render(a));
        assert(payload(a) + payload(b) =~= payload(a));
    } else {
        assert((a + b).drop_last() =~= a + b.drop_last());
        lemma_render_concat(a, b.drop_last());
        assert(render(a) + render(b) =~= render(a) + render(b.drop_last()) + render_piece(b.last()));
        assert(payload(a) + payload(b) =~= payload(a) + payload(b.drop_last()) + piece_bytes(b.last()));
    }
}

} // verus!
