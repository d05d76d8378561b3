//! The console byte stream: each line feed goes out as CR LF.

use vstd::prelude::*;

verus! {

/// The bytes sent for `s`: every `\n` becomes `\r\n`.
pub open spec fn crlf(s: Seq<u8>) -> Seq<u8>
    decreases s.len(),
{
    if s.len() == 0 {
        Seq::empty()
    } else {
        crlf(s.drop_last()) + if s.last() == 10u8 {
            seq![13u8, 10u8]
        } else {
            seq![s.last()]
        }
    }
}

/// Collects the bytes to send down the serial line.
pub struct ByteConvertor {
    pub out: Vec<u8>,
}

impl ByteConvertor {
    pub fn new() -> (r: Self)
        ensures
            r.out@.len() == 0,
    {
        ByteConvertor { out: Vec::new() }
    }

    /// Appends `s`, turning each line feed into CR LF.
    pub fn write_str(&mut self, s: &[u8]) -> (r: Result<(), ()>)
        ensures
            r is Ok,
            final(self).out@ == old(self).out@ + crlf(s@),
    {
        let mut i: usize = 0;
        while i < s.len()
            invariant
                i <= s@.len(),
                self.out@ == old(self).out@ + crlf(s@.subrange(0, i as int)),
            decreases s.len() - i,
        {
            let b = s[i];
            if b == 10u8 {
                self.out.push(13u8);
                self.out.push(10u8);
            } else {
                self.out.push(b);
            }
            proof {
                let p = s@.subrange(0, i as int + 1);
                assert(p.drop_last() =~= s@.subrange(0, i as int));
                assert(p.last() == b);
                assert(self.out@ =~= old(self).out@ + crlf(p));
            }
            i = i + 1;
        }
        assert(s@.subrange(0, s@.len() as int) =~= s@);
        Ok(())
    }
}

} // verus!
