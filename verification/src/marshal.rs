//! Argument marshaling for the foreign engine boundary.
//!
//! The engine's entry points take argv-style arguments as a count and a
//! pointer array, where every pointer refers to stable, null-terminated byte
//! storage. [`CArgs`] is the host-side image of that layout: one contiguous
//! byte buffer holding every token followed by a single terminator byte, and
//! the offset of each token inside the buffer. Keeping the buffer and the
//! offsets together in one value makes the lifetime coupling structural: the
//! storage a foreign call reads cannot be dropped before the pointer array
//! built over it.
//!
//! A token is marshalable exactly when its byte encoding holds no embedded
//! terminator byte; a token list is marshalable when it is non-empty, no
//! longer than an `argc` count can carry, and every token is marshalable.

use vstd::prelude::*;
use vstd::string::StrSliceExecFns;
use vstd::utf8::encode_utf8;
use crate::errors::SessionError;

verus! {

/// Largest token count an argument list may hold: the largest value an
/// `argc` count can carry.
pub const MAX_ARG_COUNT: usize = 2147483647;

/// A token can be null-terminated iff none of its bytes is the terminator.
pub open spec fn token_ok(token: Seq<u8>) -> bool {
    forall|p: int| 0 <= p < token.len() ==> token[p] != 0u8
}

/// The byte encodings of an argv-style token list.
pub open spec fn arg_bytes(tokens: Seq<String>) -> Seq<Seq<u8>> {
    tokens.map_values(|s: String| encode_utf8(s@))
}

/// A token list is marshalable: non-empty, countable, every token clean.
pub open spec fn args_ok(args: Seq<Seq<u8>>) -> bool {
    &&& 0 < args.len() <= MAX_ARG_COUNT
    &&& forall|k: int| 0 <= k < args.len() ==> token_ok(#[trigger] args[k])
}

/// The flat layout of a token list: each token followed by one terminator
/// byte, in order, with nothing between.
pub open spec fn flat_args(args: Seq<Seq<u8>>) -> Seq<u8>
    decreases args.len(),
{
    if args.len() == 0 {
        Seq::empty()
    } else {
        flat_args(args.drop_last()) + args.last() + seq![0u8]
    }
}

/// Where token `i` starts inside the flat layout.
pub open spec fn token_offset(args: Seq<Seq<u8>>, i: int) -> int {
    flat_args(args.take(i)).len() as int
}

/// Appending one token to a list extends the flat layout by that token and
/// one terminator byte.
pub proof fn lemma_flat_take_succ(args: Seq<Seq<u8>>, i: int)
    requires
        0 <= i < args.len(),
    ensures
        flat_args(args.take(i + 1)) == flat_args(args.take(i)) + args[i] + seq![0u8],
{
    let t = args.take(i + 1);
    assert(t.drop_last() =~= args.take(i));
    assert(t.last() == args[i]);
    assert(flat_args(t) == flat_args(t.drop_last()) + t.last() + seq![0u8]);
}

/// Inside the flat layout, token `i` occupies the bytes at its offset, and
/// the byte just past it is the terminator.
pub proof fn lemma_token_layout(args: Seq<Seq<u8>>, i: int)
    requires
        0 <= i < args.len(),
    ensures
        token_offset(args, i) + args[i].len() + 1 <= flat_args(args).len(),
        forall|j: int|
            0 <= j < args[i].len() ==> flat_args(args)[token_offset(args, i) + j] == args[i][j],
        flat_args(args)[token_offset(args, i) + args[i].len() as int] == 0u8,
    decreases args.len(),
{
    let off = token_offset(args, i);
    if i == args.len() - 1 {
        assert(args.take(i + 1) =~= args);
        lemma_flat_take_succ(args, i);
        assert(flat_args(args) == flat_args(args.take(i)) + args[i] + seq![0u8]);
        assert(flat_args(args).len() == off + args[i].len() + 1);
        assert forall|j: int| 0 <= j < args[i].len() implies flat_args(args)[off + j]
            == args[i][j] by {
            assert((flat_args(args.take(i)) + args[i] + seq![0u8])[off + j] == args[i][j]);
        }
        assert(flat_args(args)[off + args[i].len() as int] == 0u8);
    } else {
        let prev = args.drop_last();
        assert(prev[i] == args[i]);
        assert(prev.take(i) =~= args.take(i));
        lemma_token_layout(prev, i);
        assert(token_offset(prev, i) == off);
        assert(flat_args(args) == flat_args(prev) + args.last() + seq![0u8]);
        assert(flat_args(args).len() >= flat_args(prev).len());
        assert forall|j: int| 0 <= j < args[i].len() implies flat_args(args)[off + j]
            == args[i][j] by {
            assert(flat_args(prev)[off + j] == args[i][j]);
            assert((flat_args(prev) + args.last() + seq![0u8])[off + j] == flat_args(prev)[off + j]);
        }
        assert((flat_args(prev) + args.last() + seq![0u8])[off + args[i].len() as int]
            == flat_args(prev)[off + args[i].len() as int]);
    }
}

/// Marshaled argv-style arguments: the contiguous null-terminated byte image
/// of a token list, with the start offset of every token.
///
/// A value of this type is created only by [`marshal`], so its layout
/// invariant holds wherever a value exists. Its view is the sequence of the
/// token byte encodings it was built from.
pub struct CArgs {
    bytes: Vec<u8>,
    offsets: Vec<usize>,
    tokens: Ghost<Seq<Seq<u8>>>,
}

impl View for CArgs {
    type V = Seq<Seq<u8>>;

    closed spec fn view(&self) -> Seq<Seq<u8>> {
        self.tokens@
    }
}

impl CArgs {
    /// The layout invariant: the token list is marshalable, the byte buffer
    /// is exactly its flat layout, and every stored offset is the token's
    /// start inside that layout.
    pub closed spec fn wf(&self) -> bool {
        &&& args_ok(self.tokens@)
        &&& self.offsets@.len() == self.tokens@.len()
        &&& self.bytes@ == flat_args(self.tokens@)
        &&& forall|i: int|
            0 <= i < self.tokens@.len() ==> #[trigger] self.offsets@[i] == token_offset(
                self.tokens@,
                i,
            )
    }

    /// How many tokens the marshaled list holds.
    pub fn count(&self) -> (n: usize)
        requires
            self.wf(),
        ensures
            n == self@.len(),
    {
        self.offsets.len()
    }

    /// The token count as the foreign call's `argc` value.
    pub fn argc(&self) -> (n: i32)
        requires
            self.wf(),
        ensures
            n == self@.len(),
    {
        let n = self.offsets.len();
        n as i32
    }

    /// The contiguous backing storage: every token followed by one
    /// terminator byte.
    pub fn flat_bytes(&self) -> (buffer: &Vec<u8>)
        requires
            self.wf(),
        ensures
            buffer@ == flat_args(self@),
    {
        &self.bytes
    }

    /// The start offset of every token inside the backing storage; a pointer
    /// array for the foreign call is the base address of the storage plus
    /// each of these.
    pub fn offsets(&self) -> (offs: &Vec<usize>)
        requires
            self.wf(),
        ensures
            offs@.len() == self@.len(),
            forall|i: int| 0 <= i < self@.len() ==> #[trigger] offs@[i] == token_offset(self@, i),
    {
        &self.offsets
    }

    /// Reads token `i` back out of the backing storage the way a foreign
    /// callee does: from its offset up to the first terminator byte.
    ///
    /// The result is the token's byte encoding, unchanged in content and in
    /// length: the marshaling round trip loses nothing.
    pub fn read_token(&self, i: usize) -> (token: Vec<u8>)
        requires
            self.wf(),
            i < self@.len(),
        ensures
            token@ == self@[i as int],
    {
        let ghost tok = self@[i as int];
        proof {
            lemma_token_layout(self.tokens@, i as int);
            assert(self.offsets@[i as int] == token_offset(self.tokens@, i as int));
            assert(token_ok(tok));
        }
        let start = self.offsets[i];
        let total = self.bytes.len();
        let mut out: Vec<u8> = Vec::new();
        let mut j: usize = 0;
        loop
            invariant
                tok == self@[i as int],
                token_ok(tok),
                start + tok.len() + 1 <= total,
                total == self.bytes@.len(),
                j <= tok.len(),
                out@ == tok.take(j as int),
                forall|p: int| 0 <= p < tok.len() ==> #[trigger] self.bytes@[start + p] == tok[p],
                self.bytes@[start + tok.len() as int] == 0u8,
            decreases tok.len() - j,
        {
            let b = self.bytes[start + j];
            if b == 0 {
                proof {
                    if j < tok.len() {
                        assert(self.bytes@[start + j] == tok[j as int]);
                        assert(tok[j as int] != 0u8);
                    }
                    assert(j == tok.len());
                    assert(tok.take(j as int) =~= tok);
                }
                return out;
            }
            proof {
                if j == tok.len() {
                    assert(self.bytes@[start + j as int] == 0u8);
                }
                assert(j < tok.len());
                assert(self.bytes@[start + j] == tok[j as int]);
                assert(tok.take(j as int + 1) =~= tok.take(j as int).push(tok[j as int]));
            }
            out.push(b);
            j += 1;
        }
    }
}

/// Marshals an argv-style token list into its contiguous null-terminated
/// image.
///
/// Succeeds exactly on marshalable lists, and then returns their full byte
/// image. An empty or uncountably long list is a configuration error; a
/// token with an embedded terminator byte is an encoding error.
pub fn marshal(tokens: &Vec<String>) -> (result: Result<CArgs, SessionError>)
    ensures
        match result {
            Ok(c) => {
                &&& args_ok(arg_bytes(tokens@))
                &&& c.wf()
                &&& c@ == arg_bytes(tokens@)
            },
            Err(e) => {
                &&& !args_ok(arg_bytes(tokens@))
                &&& (e == SessionError::Configuration <==> !(0 < tokens@.len()
                    <= MAX_ARG_COUNT))
                &&& (e == SessionError::Encoding <==> 0 < tokens@.len() <= MAX_ARG_COUNT)
            },
        },
{
    let n = tokens.len();
    if n == 0 || n > MAX_ARG_COUNT {
        return Err(SessionError::Configuration);
    }
    let mut bytes: Vec<u8> = Vec::new();
    let mut offsets: Vec<usize> = Vec::new();
    let ghost mut toks: Seq<Seq<u8>> = Seq::empty();
    proof {
        assert(Seq::<Seq<u8>>::empty() =~= arg_bytes(tokens@).take(0));
    }
    let mut idx: usize = 0;
    while idx < n
        invariant
            n == tokens@.len(),
            0 < n <= MAX_ARG_COUNT,
            idx <= n,
            toks == arg_bytes(tokens@).take(idx as int),
            bytes@ == flat_args(toks),
            offsets@.len() == idx,
            forall|k: int| 0 <= k < idx ==> #[trigger] offsets@[k] == token_offset(toks, k),
            forall|k: int| 0 <= k < idx ==> token_ok(#[trigger] toks[k]),
        decreases n - idx,
    {
        let mut token_vec: Vec<u8> = tokens[idx].as_str().as_bytes_vec();
        let ghost tv = token_vec@;
        proof {
            assert(arg_bytes(tokens@)[idx as int] == tv);
        }
        let mut j: usize = 0;
        while j < token_vec.len()
            invariant
                token_vec@ == tv,
                j <= tv.len(),
                idx < tokens@.len(),
                0 < tokens@.len() <= MAX_ARG_COUNT,
                arg_bytes(tokens@).len() == tokens@.len(),
                arg_bytes(tokens@)[idx as int] == tv,
                forall|p: int| 0 <= p < j ==> tv[p] != 0u8,
            decreases tv.len() - j,
        {
            if token_vec[j] == 0 {
                proof {
                    assert(tv[j as int] == 0u8);
                    assert(!token_ok(tv));
                    assert(!token_ok(arg_bytes(tokens@)[idx as int]));
                    assert(!args_ok(arg_bytes(tokens@)));
                }
                return Err(SessionError::Encoding);
            }
            j += 1;
        }
        offsets.push(bytes.len());
        bytes.append(&mut token_vec);
        bytes.push(0);
        proof {
            let full = arg_bytes(tokens@);
            assert(toks.push(tv) =~= full.take(idx + 1));
            lemma_flat_take_succ(full.take(idx + 1), idx as int);
            assert(full.take(idx + 1).take(idx as int) =~= full.take(idx as int));
            assert((flat_args(toks) + tv).push(0u8) =~= flat_args(toks) + tv + seq![0u8]);
            assert(bytes@ == flat_args(full.take(idx + 1)));
            assert forall|k: int| 0 <= k < idx + 1 implies #[trigger] offsets@[k] == token_offset(
                full.take(idx + 1),
                k,
            ) by {
                assert(full.take(idx + 1).take(k) =~= toks.take(k));
                if k < idx {
                    assert(offsets@[k] == token_offset(toks, k));
                } else {
                    assert(offsets@[k] == flat_args(toks).len());
                    assert(toks.take(idx as int) =~= toks);
                }
            }
            toks = toks.push(tv);
        }
        idx += 1;
    }
    proof {
        assert(arg_bytes(tokens@).take(n as int) =~= arg_bytes(tokens@));
        assert(args_ok(arg_bytes(tokens@)));
    }
    Ok(CArgs { bytes, offsets, tokens: Ghost(toks) })
}

} // verus!
