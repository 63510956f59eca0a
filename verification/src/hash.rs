//! Content hashes: the MD5 digest of some bytes, written as 32 lower-case
//! hexadecimal digits. The digest itself is computed by the `md5` crate; the
//! rendering and everything built on it is verified here.
//!
//! The hash is an identity for deduplication only. Nothing here relies on
//! MD5 being hard to collide.

use vstd::prelude::*;
use vstd::string::*;

verus! {

/// The size of the blocks in which a large input is best fed to a
/// [`Md5Stream`]: 4 MiB.
pub const BLOCK_SIZE: usize = 4 * 1024 * 1024;

/// The 16 bytes of the MD5 digest of `data`, as `md5::compute` returns them.
pub uninterp spec fn md5_digest(data: Seq<u8>) -> Seq<u8>;

/// The bytes that an `md5::Context` has consumed since it was created, in
/// the order in which it consumed them.
pub uninterp spec fn context_input(ctx: md5::Context) -> Seq<u8>;

/// `md5::Context`, a digest under way. It is carried through as it is:
/// nothing inside it is looked at here.
#[verifier::external_type_specification]
#[verifier::external_body]
pub struct ExContext(md5::Context);

/// `md5::compute`: the digest of `data`. Nothing is proved of it; the
/// contract only gives the sixteen bytes their name.
#[verifier::external_body]
fn md5_compute(data: &[u8]) -> (digest: [u8; 16])
    ensures
        digest@ == md5_digest(data@),
{
    md5::compute(data).0
}

/// `md5::Context::new`: a context that has consumed nothing yet.
#[verifier::external_body]
fn context_new() -> (ctx: md5::Context)
    ensures
        context_input(ctx) == Seq::<u8>::empty(),
{
    md5::Context::new()
}

/// `md5::Context::consume`: the context has consumed `data` after what it
/// had consumed before.
#[verifier::external_body]
fn context_consume(ctx: &mut md5::Context, data: &[u8])
    ensures
        context_input(*final(ctx)) == context_input(*old(ctx)) + data@,
{
    ctx.consume(data)
}

/// `md5::Context::compute`: the digest of all that the context has consumed,
/// which is what `md5::compute` gives for the same bytes in one piece.
#[verifier::external_body]
fn context_compute(ctx: md5::Context) -> (digest: [u8; 16])
    ensures
        digest@ == md5_digest(context_input(ctx)),
{
    ctx.compute().0
}

/// The lower-case hexadecimal digit for `n`, where `0 <= n < 16`.
pub open spec fn hex_digit(n: int) -> char {
    seq!['0', '1', '2', '3', '4', '5', '6', '7', '8', '9', 'a', 'b', 'c', 'd', 'e', 'f'][n]
}

/// `bytes` in lower-case hexadecimal: two digits per byte, the high half
/// first, in the order of the bytes.
pub open spec fn hex_lower(bytes: Seq<u8>) -> Seq<char> {
    Seq::new(
        2 * bytes.len(),
        |i: int|
            if i % 2 == 0 {
                hex_digit(bytes[i / 2] as int / 16)
            } else {
                hex_digit(bytes[i / 2] as int % 16)
            },
    )
}

/// The content hash of `data`: its MD5 digest in lower-case hexadecimal.
pub open spec fn content_hash(data: Seq<u8>) -> Seq<char> {
    hex_lower(md5_digest(data))
}

/// The content hash of a text: that of its UTF-8 bytes.
pub open spec fn text_hash(text: Seq<char>) -> Seq<char> {
    content_hash(vstd::utf8::encode_utf8(text))
}

/// The rendering of a sequence with one more byte is the rendering of the
/// sequence followed by the two digits of that byte.
pub proof fn lemma_hex_lower_push(bytes: Seq<u8>, b: u8)
    ensures
        hex_lower(bytes.push(b)) == hex_lower(bytes) + seq![
            hex_digit(b as int / 16),
            hex_digit(b as int % 16),
        ],
{
    let left = hex_lower(bytes.push(b));
    let right = hex_lower(bytes) + seq![hex_digit(b as int / 16), hex_digit(b as int % 16)];
    assert(left.len() == right.len());
    assert forall|i: int| 0 <= i < left.len() implies left[i] == right[i] by {
        if i < 2 * bytes.len() {
            assert(i / 2 < bytes.len());
            assert(bytes.push(b)[i / 2] == bytes[i / 2]);
        } else {
            assert(i / 2 == bytes.len());
            assert(bytes.push(b)[i / 2] == b);
        }
    }
    assert(left =~= right);
}

/// The one-character text of a hexadecimal digit.
fn digit_str(n: u8) -> (s: &'static str)
    requires
        n < 16,
    ensures
        s@ == seq![hex_digit(n as int)],
{
    proof {
        reveal_strlit("0");
        reveal_strlit("1");
        reveal_strlit("2");
        reveal_strlit("3");
        reveal_strlit("4");
        reveal_strlit("5");
        reveal_strlit("6");
        reveal_strlit("7");
        reveal_strlit("8");
        reveal_strlit("9");
        reveal_strlit("a");
        reveal_strlit("b");
        reveal_strlit("c");
        reveal_strlit("d");
        reveal_strlit("e");
        reveal_strlit("f");
    }
    let s = match n {
        0 => "0",
        1 => "1",
        2 => "2",
        3 => "3",
        4 => "4",
        5 => "5",
        6 => "6",
        7 => "7",
        8 => "8",
        9 => "9",
        10 => "a",
        11 => "b",
        12 => "c",
        13 => "d",
        14 => "e",
        _ => "f",
    };
    assert(s@ =~= seq![hex_digit(n as int)]);
    s
}

/// Writes `bytes` in lower-case hexadecimal.
pub fn to_hex(bytes: &[u8]) -> (s: String)
    ensures
        s@ == hex_lower(bytes@),
{
    let mut s = String::new();
    let mut i: usize = 0;
    assert(bytes@.take(0) =~= Seq::<u8>::empty());
    assert(s@ =~= hex_lower(bytes@.take(0)));
    while i < bytes.len()
        invariant
            i <= bytes.len(),
            s@ == hex_lower(bytes@.take(i as int)),
        decreases bytes.len() - i,
    {
        let b: u8 = bytes[i];
        proof {
            lemma_hex_lower_push(bytes@.take(i as int), b);
            assert(bytes@.take(i as int).push(b) =~= bytes@.take(i + 1));
        }
        s.append(digit_str(b / 16));
        s.append(digit_str(b % 16));
        assert(s@ =~= hex_lower(bytes@.take(i + 1)));
        i += 1;
    }
    assert(bytes@.take(bytes.len() as int) =~= bytes@);
    s
}

/// The content hash of a buffer that is held in memory: 32 lower-case
/// hexadecimal digits.
pub fn hash_in_md5(data: &[u8]) -> (hash: String)
    ensures
        hash@ == content_hash(data@),
        hash@.len() == 32,
{
    let digest = md5_compute(data);
    assert(digest@.len() == 16);
    to_hex(digest.as_slice())
}

/// The content hash of a text: that of its UTF-8 bytes, in 32 lower-case
/// hexadecimal digits.
pub fn hash_str_in_md5(data: String) -> (hash: String)
    ensures
        hash@ == text_hash(data@),
        hash@.len() == 32,
{
    hash_in_md5(data.as_str().as_bytes())
}

/// A content hash under construction, for an input that arrives in blocks
/// and is too large to hold in memory. Its view is the input so far.
pub struct Md5Stream {
    ctx: md5::Context,
}

impl View for Md5Stream {
    type V = Seq<u8>;

    closed spec fn view(&self) -> Seq<u8> {
        context_input(self.ctx)
    }
}

impl Md5Stream {
    /// A stream that has been fed nothing.
    pub fn new() -> (stream: Md5Stream)
        ensures
            stream@ == Seq::<u8>::empty(),
    {
        Md5Stream { ctx: context_new() }
    }

    /// Feeds the next block of the input.
    pub fn consume(&mut self, block: &[u8])
        ensures
            final(self)@ == old(self)@ + block@,
    {
        context_consume(&mut self.ctx, block);
    }

    /// The content hash of all that was fed: the hash that [`hash_in_md5`]
    /// gives for the same bytes in one buffer.
    pub fn finish(self) -> (hash: String)
        ensures
            hash@ == content_hash(self@),
            hash@.len() == 32,
    {
        let digest = context_compute(self.ctx);
        assert(digest@.len() == 16);
        to_hex(digest.as_slice())
    }
}

/// What a stream holds after it was fed `blocks`, one after the other,
/// on top of `start`.
pub open spec fn fed(start: Seq<u8>, blocks: Seq<Seq<u8>>) -> Seq<u8>
    decreases blocks.len(),
{
    if blocks.len() == 0 {
        start
    } else {
        fed(start, blocks.drop_last()) + blocks.last()
    }
}

/// However an input is cut into blocks, a stream that was fed the blocks
/// in their order holds the input, so its hash is the hash of the input in
/// one piece.
pub proof fn lemma_fed_blocks(blocks: Seq<Seq<u8>>)
    ensures
        fed(Seq::<u8>::empty(), blocks) == blocks.flatten(),
        content_hash(fed(Seq::<u8>::empty(), blocks)) == content_hash(blocks.flatten()),
    decreases blocks.len(),
{
    blocks.lemma_flatten_and_flatten_alt_are_equivalent();
    if blocks.len() > 0 {
        lemma_fed_blocks(blocks.drop_last());
        blocks.drop_last().lemma_flatten_and_flatten_alt_are_equivalent();
    } else {
        assert(blocks.flatten_alt() =~= Seq::<u8>::empty());
    }
    assert(fed(Seq::<u8>::empty(), blocks) =~= blocks.flatten_alt());
}

} // verus!
