//! The exclusive raw terminal session: the ownership bookkeeping, the
//! validation of what the probing of the terminal reported, and the exact
//! control byte streams.
//!
//! The process-wide exclusivity marker is an explicit [`TermRegistry`]
//! value owned by the caller; a session handle can only be created while
//! no other is live, and closing consumes the handle. The raw device
//! calls themselves (switching modes, reading, writing) happen outside
//! the library; it decides, validates, and composes the bytes to write.

use vstd::prelude::*;

verus! {

/// Why a session could not be opened, in the order the conditions are
/// checked: another session live, standard output not a terminal, a zero
/// reported dimension, a failed device configuration call.
#[derive(Debug, Clone, Copy, PartialEq, Eq, Structural)]
pub enum TermError {
    AlreadyOpen,
    NotATerminal,
    DimensionQueryFailed,
    DeviceConfigFailed,
}

/// The process-wide exclusivity marker: at most one session is live.
pub struct TermRegistry {
    live: bool,
}

impl TermRegistry {
    /// Whether a session is currently live.
    pub closed spec fn is_live(&self) -> bool {
        self.live
    }

    /// A fresh registry with no live session.
    pub fn new() -> (r: TermRegistry)
        ensures
            !r.is_live(),
    {
        TermRegistry { live: false }
    }
}

/// A live raw terminal session, carrying the negotiated dimensions.
#[derive(Debug, PartialEq, Eq, Structural)]
pub struct Term {
    pub width: usize,
    pub height: usize,
}

impl Term {
    /// Open the exclusive session, given what probing the terminal
    /// reported: whether standard output is interactive, whether the
    /// device configuration calls succeeded, and the reported dimensions.
    /// Exactly one of the four failures is returned when its condition
    /// holds, in declaration order, and only a successful open marks the
    /// registry live.
    pub fn new(
        reg: &mut TermRegistry,
        is_tty: bool,
        config_ok: bool,
        width: usize,
        height: usize,
    ) -> (r: Result<Term, TermError>)
        ensures
            old(reg).is_live() ==> r == Err::<Term, TermError>(TermError::AlreadyOpen),
            !old(reg).is_live() && !is_tty ==> r == Err::<Term, TermError>(
                TermError::NotATerminal,
            ),
            !old(reg).is_live() && is_tty && (width == 0 || height == 0) ==> r == Err::<
                Term,
                TermError,
            >(TermError::DimensionQueryFailed),
            !old(reg).is_live() && is_tty && width > 0 && height > 0 && !config_ok ==> r == Err::<
                Term,
                TermError,
            >(TermError::DeviceConfigFailed),
            !old(reg).is_live() && is_tty && width > 0 && height > 0 && config_ok ==> r
                == Ok::<Term, TermError>(Term { width, height }),
            final(reg).is_live() == (old(reg).is_live() || (is_tty && width > 0 && height > 0
                && config_ok)),
    {
        if reg.live {
            return Err(TermError::AlreadyOpen);
        }
        if !is_tty {
            return Err(TermError::NotATerminal);
        }
        if width == 0 || height == 0 {
            return Err(TermError::DimensionQueryFailed);
        }
        if !config_ok {
            return Err(TermError::DeviceConfigFailed);
        }
        reg.live = true;
        Ok(Term { width, height })
    }

    /// The usable game viewport: the full width, and the height less the
    /// two rows reserved for the header lines.
    pub fn viewport(&self) -> (d: (usize, usize))
        requires
            self.height >= 2,
        ensures
            d.0 == self.width,
            d.1 == self.height - 2,
    {
        (self.width, self.height - 2)
    }

    /// Close the session: the handle is consumed, so a second close of
    /// the same session cannot be written, and the registry is released.
    pub fn close(self, reg: &mut TermRegistry)
        requires
            old(reg).is_live(),
        ensures
            !final(reg).is_live(),
    {
        reg.live = false;
    }

    /// The ordered concatenation of the chunks one non-blocking read
    /// pass collected, oldest first.
    pub fn get_input_buffer(&self, chunks: &Vec<Vec<u8>>) -> (out: Vec<u8>)
        ensures
            out@ == concat_bytes(chunks@.map_values(|v: Vec<u8>| v@)),
    {
        let ghost views = chunks@.map_values(|v: Vec<u8>| v@);
        let mut out: Vec<u8> = Vec::new();
        let mut i: usize = 0;
        proof {
            assert(views.subrange(0, 0) =~= Seq::<Seq<u8>>::empty());
        }
        while i < chunks.len()
            invariant
                i <= chunks.len(),
                views == chunks@.map_values(|v: Vec<u8>| v@),
                out@ == concat_bytes(views.subrange(0, i as int)),
            decreases chunks.len() - i,
        {
            let chunk: &Vec<u8> = &chunks[i];
            let mut j: usize = 0;
            while j < chunk.len()
                invariant
                    j <= chunk.len(),
                    i < chunks.len(),
                    chunk == &chunks@[i as int],
                    views == chunks@.map_values(|v: Vec<u8>| v@),
                    out@ == concat_bytes(views.subrange(0, i as int)) + chunk@.subrange(
                        0,
                        j as int,
                    ),
                decreases chunk.len() - j,
            {
                out.push(chunk[j]);
                proof {
                    assert(chunk@.subrange(0, j as int).push(chunk@[j as int]) =~= chunk@.subrange(
                        0,
                        j as int + 1,
                    ));
                }
                j = j + 1;
            }
            proof {
                assert(chunk@.subrange(0, chunk@.len() as int) =~= chunk@);
                lemma_concat_snoc(views, i as int);
            }
            i = i + 1;
        }
        proof {
            assert(views.subrange(0, views.len() as int) =~= views);
        }
        out
    }

    /// The byte stream of a full repaint: the cursor returns to the top
    /// left, then the payload follows verbatim.
    pub fn put_buffer(&self, s: &Vec<u8>) -> (out: Vec<u8>)
        ensures
            out@ == cursor_home_seq() + s@,
    {
        let mut out: Vec<u8> = Vec::new();
        out.push(27);
        out.push(91);
        out.push(72);
        let mut i: usize = 0;
        proof {
            assert(out@ =~= cursor_home_seq() + s@.subrange(0, 0));
        }
        while i < s.len()
            invariant
                i <= s.len(),
                out@ == cursor_home_seq() + s@.subrange(0, i as int),
            decreases s.len() - i,
        {
            out.push(s[i]);
            proof {
                assert((cursor_home_seq() + s@.subrange(0, i as int)).push(s@[i as int])
                    =~= cursor_home_seq() + s@.subrange(0, i as int + 1));
            }
            i = i + 1;
        }
        proof {
            assert(cursor_home_seq() + s@.subrange(0, s@.len() as int) =~= cursor_home_seq() + s@);
        }
        out
    }

    /// The byte stream of a partial write: the payload verbatim, with no
    /// cursor repositioning.
    pub fn put_partial_buffer(&self, s: &Vec<u8>) -> (out: Vec<u8>)
        ensures
            out@ == s@,
    {
        crate::frame::copy_bytes(s)
    }
}

/// The ordered concatenation of a sequence of byte sequences.
pub open spec fn concat_bytes(cs: Seq<Seq<u8>>) -> Seq<u8>
    decreases cs.len(),
{
    if cs.len() == 0 {
        Seq::empty()
    } else {
        concat_bytes(cs.drop_last()) + cs.last()
    }
}

/// Concatenating one more chunk appends its bytes.
proof fn lemma_concat_snoc(cs: Seq<Seq<u8>>, i: int)
    requires
        0 <= i < cs.len(),
    ensures
        concat_bytes(cs.subrange(0, i + 1)) == concat_bytes(cs.subrange(0, i)) + cs[i],
{
    let pre = cs.subrange(0, i + 1);
    assert(pre.drop_last() =~= cs.subrange(0, i));
    assert(pre.last() == cs[i]);
}

/// The control bytes entering the session: alternate screen on, cursor
/// hidden.
pub open spec fn enter_raw_seq() -> Seq<u8> {
    seq![27u8, 91u8, 63u8, 49u8, 48u8, 52u8, 57u8, 104u8, 27u8, 91u8, 63u8, 50u8, 53u8, 108u8]
}

/// The control bytes leaving the session: alternate screen off, cursor
/// shown.
pub open spec fn leave_raw_seq() -> Seq<u8> {
    seq![27u8, 91u8, 63u8, 49u8, 48u8, 52u8, 57u8, 108u8, 27u8, 91u8, 63u8, 50u8, 53u8, 104u8]
}

/// The control bytes moving the cursor to the top-left cell.
pub open spec fn cursor_home_seq() -> Seq<u8> {
    seq![27u8, 91u8, 72u8]
}

/// The bytes to write once when the session opens.
pub fn enter_sequence() -> (out: Vec<u8>)
    ensures
        out@ == enter_raw_seq(),
{
    let mut out: Vec<u8> = Vec::new();
    out.push(27);
    out.push(91);
    out.push(63);
    out.push(49);
    out.push(48);
    out.push(52);
    out.push(57);
    out.push(104);
    out.push(27);
    out.push(91);
    out.push(63);
    out.push(50);
    out.push(53);
    out.push(108);
    proof {
        assert(out@ =~= enter_raw_seq());
    }
    out
}

/// The bytes to write once when the session closes.
pub fn leave_sequence() -> (out: Vec<u8>)
    ensures
        out@ == leave_raw_seq(),
{
    let mut out: Vec<u8> = Vec::new();
    out.push(27);
    out.push(91);
    out.push(63);
    out.push(49);
    out.push(48);
    out.push(52);
    out.push(57);
    out.push(108);
    out.push(27);
    out.push(91);
    out.push(63);
    out.push(50);
    out.push(53);
    out.push(104);
    proof {
        assert(out@ =~= leave_raw_seq());
    }
    out
}

} // verus!
