//! Receiver role: puts files together from delta tokens and a basis.

use vstd::prelude::*;

use crate::error::{ProtocolError, ProtocolErrorView};
use crate::filelist::entry::same_bytes;
use crate::protocol::varint::{int_at, int_bytes, int_read_back, read_int};
use crate::protocol::wire::{holds_at, read_as, WireReader};
use crate::text::{hex_string, hex_text};

verus! {

/// Result of receiving and applying a single file's delta.
#[derive(Debug)]
pub struct ReceivedFile {
    /// The file index from the sender.
    pub file_index: i32,
    /// The reconstructed file data.
    pub data: Vec<u8>,
}

/// A piece of a delta.
#[derive(Debug)]
pub enum Token {
    /// Data as it is.
    Data(Vec<u8>),
    /// A block of the basis.
    BlockMatch(i32),
    /// The end of the file.
    EndOfFile,
}

/// The view of a [`Token`].
#[verifier::ext_equal]
pub enum TokenView {
    Data(Seq<u8>),
    BlockMatch(i32),
    EndOfFile,
}

impl View for Token {
    type V = TokenView;

    open spec fn view(&self) -> TokenView {
        match *self {
            Token::Data(d) => TokenView::Data(d@),
            Token::BlockMatch(i) => TokenView::BlockMatch(i),
            Token::EndOfFile => TokenView::EndOfFile,
        }
    }
}

/// The views of tokens.
pub open spec fn token_views(s: Seq<Token>) -> Seq<TokenView> {
    Seq::new(s.len(), |i: int| s[i]@)
}

// ---------------------------------------------------------------------------
// File indices
// ---------------------------------------------------------------------------

/// The file index at a position; -1 says that no file follows.
pub open spec fn file_index_at(s: Seq<u8>, p: int) -> Result<
    (Option<i32>, int),
    ProtocolErrorView,
> {
    match int_at(s, p) {
        Err(e) => Err(e),
        Ok((v, q)) => Ok(
            (
                if v == -1 {
                    None
                } else {
                    Some(v)
                },
                q,
            ),
        ),
    }
}

/// Read a file index from a stream.
///
/// Returns `None` if the other side is done.
pub fn recv_file_index(r: &mut WireReader) -> (res: Result<Option<i32>, ProtocolError>)
    requires
        old(r).wf(),
    ensures
        read_as(*old(r), *final(r), file_index_at(old(r).buf@, old(r).pos as int), res),
{
    match read_int(r) {
        Err(e) => Err(e),
        Ok(idx) => if idx == -1 {
            Ok(None)
        } else {
            Ok(Some(idx))
        },
    }
}

/// A file index that was written is read back, and the end marker as the end.
pub proof fn file_index_read_back(s: Seq<u8>, p: int, index: i32)
    requires
        holds_at(s, p, int_bytes(index)),
    ensures
        file_index_at(s, p) == Ok::<(Option<i32>, int), ProtocolErrorView>(
            (
                if index == -1 {
                    None
                } else {
                    Some(index)
                },
                p + int_bytes(index).len(),
            ),
        ),
{
    int_read_back(s, p, index);
}

// ---------------------------------------------------------------------------
// Putting files together
// ---------------------------------------------------------------------------

/// A block of a basis: as long as blocks are, but for what the basis lacks at
/// its end.
pub open spec fn block_of(basis: Seq<u8>, blength: nat, index: int) -> Seq<u8> {
    let start = index * blength;
    if start >= basis.len() {
        Seq::empty()
    } else if start + blength <= basis.len() {
        basis.subrange(start, start + blength)
    } else {
        basis.subrange(start, basis.len() as int)
    }
}

/// What a token stands for.
pub open spec fn token_data(basis: Seq<u8>, blength: nat, t: TokenView) -> Seq<u8> {
    match t {
        TokenView::Data(d) => d,
        TokenView::BlockMatch(i) => block_of(basis, blength, i as int),
        TokenView::EndOfFile => Seq::empty(),
    }
}

/// What the first tokens stand for, up to the end of the file.
pub open spec fn put_together(basis: Seq<u8>, blength: nat, tokens: Seq<TokenView>, n: nat) -> Seq<
    u8,
>
    decreases n,
{
    if n == 0 {
        Seq::empty()
    } else if ended_before(tokens, (n - 1) as nat) {
        put_together(basis, blength, tokens, (n - 1) as nat)
    } else {
        put_together(basis, blength, tokens, (n - 1) as nat) + token_data(
            basis,
            blength,
            tokens[n - 1],
        )
    }
}

/// The end of the file stands among the first tokens.
pub open spec fn ended_before(tokens: Seq<TokenView>, n: nat) -> bool {
    exists|i: int| 0 <= i < n && #[trigger] tokens[i] == TokenView::EndOfFile
}

/// The blocks that tokens name can be counted in bytes.
pub open spec fn tokens_fit(tokens: Seq<TokenView>, blength: usize) -> bool {
    forall|i: int|
        0 <= i < tokens.len() && (#[trigger] tokens[i]) is BlockMatch ==> 0
            <= tokens[i]->BlockMatch_0 && (tokens[i]->BlockMatch_0 + 1) * blength <= usize::MAX
}

/// Whether the blocks that tokens name can be counted in bytes.
pub fn can_apply(tokens: &[Token], blength: usize) -> (r: bool)
    ensures
        r == tokens_fit(token_views(tokens@), blength),
{
    let ghost all = token_views(tokens@);
    let mut i: usize = 0;
    while i < tokens.len()
        invariant
            i <= tokens.len(),
            all == token_views(tokens@),
            forall|j: int|
                0 <= j < i && (#[trigger] all[j]) is BlockMatch ==> 0 <= all[j]->BlockMatch_0 && (
                all[j]->BlockMatch_0 + 1) * blength <= usize::MAX,
        decreases tokens.len() - i,
    {
        assert(all[i as int] == tokens[i as int]@);
        match &tokens[i] {
            Token::BlockMatch(index) => {
                if *index < 0 {
                    return false;
                }
                let count: u64 = *index as u64 + 1;
                assert(count * blength <= 0x8000_0000 * 0xffff_ffff_ffff_ffff) by (nonlinear_arith)
                    requires
                        count <= 0x8000_0000,
                        blength <= 0xffff_ffff_ffff_ffff,
                ;
                let end: u128 = count as u128 * blength as u128;
                if end > usize::MAX as u128 {
                    return false;
                }
            },
            _ => {},
        }
        i = i + 1;
    }
    true
}

/// Appends a block of the basis.
fn push_block(out: &mut Vec<u8>, basis: &[u8], blength: usize, index: i32)
    requires
        0 <= index,
        (index + 1) * blength <= usize::MAX,
    ensures
        final(out)@ == old(out)@ + block_of(basis@, blength as nat, index as int),
{
    let ghost had = out@;
    assert((index + 1) * blength == index * blength + blength) by (nonlinear_arith);
    assert(0 <= index * blength) by (nonlinear_arith)
        requires
            0 <= index,
            0 <= blength,
    ;
    let start: usize = index as usize * blength;
    if start < basis.len() {
        let end: usize = if start + blength <= basis.len() {
            start + blength
        } else {
            basis.len()
        };
        let piece = vstd::slice::slice_subrange(basis, start, end);
        out.extend_from_slice(piece);
        assert(out@ =~= had + piece@);
    } else {
        assert(out@ =~= had + Seq::<u8>::empty());
    }
}

/// Puts a file together from tokens and the basis. Tokens behind the end of
/// the file do not count.
pub fn apply_tokens(tokens: &[Token], basis: &[u8], blength: usize) -> (r: Vec<u8>)
    requires
        tokens_fit(token_views(tokens@), blength),
    ensures
        r@ == put_together(basis@, blength as nat, token_views(tokens@), tokens@.len()),
{
    let ghost all = token_views(tokens@);
    let mut out: Vec<u8> = Vec::new();
    let mut i: usize = 0;
    while i < tokens.len()
        invariant
            i <= tokens.len(),
            all == token_views(tokens@),
            tokens_fit(all, blength),
            !ended_before(all, i as nat),
            out@ == put_together(basis@, blength as nat, all, i as nat),
        decreases tokens.len() - i,
    {
        let ghost had = out@;
        assert(all[i as int] == tokens[i as int]@);
        match &tokens[i] {
            Token::Data(d) => {
                out.extend_from_slice(d.as_slice());
                assert(out@ =~= had + d@);
            },
            Token::BlockMatch(index) => {
                push_block(&mut out, basis, blength, *index);
            },
            Token::EndOfFile => {
                assert(out@ =~= had + Seq::<u8>::empty());
                proof {
                    nothing_behind_the_end(basis@, blength as nat, all, i as int, all.len());
                }
                return out;
            },
        }
        i = i + 1;
    }
    out
}

proof fn nothing_behind_the_end(
    basis: Seq<u8>,
    blength: nat,
    tokens: Seq<TokenView>,
    i: int,
    n: nat,
)
    requires
        0 <= i < n <= tokens.len(),
        tokens[i] == TokenView::EndOfFile,
    ensures
        put_together(basis, blength, tokens, n) == put_together(
            basis,
            blength,
            tokens,
            (i + 1) as nat,
        ),
    decreases n,
{
    if n > i + 1 {
        assert(tokens[i] == TokenView::EndOfFile);
        assert(ended_before(tokens, (n - 1) as nat));
        nothing_behind_the_end(basis, blength, tokens, i, (n - 1) as nat);
    }
}

/// All blocks of a basis in order give the basis: a file that has not changed
/// is put together from references alone.
pub proof fn all_blocks_give_basis(basis: Seq<u8>, blength: nat, n: nat)
    requires
        blength > 0,
        n <= i32::MAX,
    ensures
        put_together(
            basis,
            blength,
            Seq::new(n, |i: int| TokenView::BlockMatch(i as i32)),
            n,
        ) == (if n * blength <= basis.len() {
            basis.take((n * blength) as int)
        } else {
            basis
        }),
    decreases n,
{
    let tokens = Seq::new(n, |i: int| TokenView::BlockMatch(i as i32));
    all_blocks_up_to(basis, blength, tokens, n);
}

proof fn all_blocks_up_to(basis: Seq<u8>, blength: nat, tokens: Seq<TokenView>, n: nat)
    requires
        blength > 0,
        n <= tokens.len() <= i32::MAX,
        tokens == Seq::new(tokens.len(), |i: int| TokenView::BlockMatch(i as i32)),
    ensures
        put_together(basis, blength, tokens, n) == (if n * blength <= basis.len() {
            basis.take((n * blength) as int)
        } else {
            basis
        }),
    decreases n,
{
    if n == 0 {
        assert(0 * blength == 0);
        assert(basis.take(0) =~= Seq::<u8>::empty());
    } else {
        let m = (n - 1) as nat;
        all_blocks_up_to(basis, blength, tokens, m);
        assert(n * blength == m * blength + blength) by (nonlinear_arith)
            requires
                n == m + 1,
        ;
        assert(0 <= m * blength) by (nonlinear_arith)
            requires
                0 <= m,
                0 <= blength,
        ;
        let b = block_of(basis, blength, m as int);
        assert(tokens[m as int] == TokenView::BlockMatch(m as i32));
        assert(!ended_before(tokens, m)) by {
            assert forall|i: int| 0 <= i < m implies #[trigger] tokens[i]
                != TokenView::EndOfFile by {}
        }
        if m * blength >= basis.len() {
            assert(b =~= Seq::<u8>::empty());
            assert(put_together(basis, blength, tokens, m) + b =~= basis);
        } else if n * blength <= basis.len() {
            assert(basis.take((m * blength) as int) + b =~= basis.take((n * blength) as int));
        } else {
            assert(basis.take((m * blength) as int) + b =~= basis);
        }
    }
}

/// A file that is sent as it is comes out as it is.
pub proof fn literal_data_is_kept(basis: Seq<u8>, blength: nat, data: Seq<u8>)
    ensures
        put_together(basis, blength, seq![TokenView::Data(data), TokenView::EndOfFile], 2) == data,
{
    let t = seq![TokenView::Data(data), TokenView::EndOfFile];
    reveal_with_fuel(put_together, 3);
    assert(!ended_before(t, 1)) by {
        assert(t[0] != TokenView::EndOfFile);
    }
    assert(Seq::<u8>::empty() + data + Seq::<u8>::empty() =~= data);
    assert(Seq::<u8>::empty() + data =~= data);
}

// ---------------------------------------------------------------------------
// Checking files
// ---------------------------------------------------------------------------

/// The error of a file that is not what was sent.
pub open spec fn mismatch(received: Seq<u8>, computed: Seq<u8>) -> ProtocolErrorView {
    ProtocolErrorView::ChecksumMismatch {
        expected: hex_text(received),
        actual: hex_text(computed),
    }
}

/// Each byte as two hexadecimal digits.
pub fn hex_encode(bytes: &[u8]) -> (r: String)
    ensures
        r@ == hex_text(bytes@),
{
    hex_string(bytes)
}

/// Accepts a file whose checksum is the one that was received. `computed` is
/// the checksum of the data.
pub fn verify_file(data: Vec<u8>, received: &[u8], computed: &[u8]) -> (r: Result<
    Vec<u8>,
    ProtocolError,
>)
    ensures
        match r {
            Ok(d) => received@ == computed@ && d@ == data@,
            Err(e) => received@ != computed@ && e@ == mismatch(received@, computed@),
        },
{
    if same_bytes(received, computed) {
        Ok(data)
    } else {
        Err(
            ProtocolError::ChecksumMismatch {
                expected: hex_encode(received),
                actual: hex_encode(computed),
            },
        )
    }
}

} // verus!
