//! The file object pool's per-file state, modeled as the byte image of the
//! backing file: positional reads and writes against a recorded size.  The
//! caller mirrors the image to the real backing file and shares one object
//! among the descriptors that reference it.

use crate::errnos::EINVAL;
use crate::fs::clone_bytes;
use vstd::prelude::*;

verus! {

/// One pooled file: its name, the bytes of its backing store, and the
/// recorded size (always the length of the image).
#[derive(Debug)]
pub struct EmulatedFile {
    pub filename: Vec<u8>,
    pub bytes: Vec<u8>,
    pub filesize: usize,
}

pub open spec fn emfile_wf(f: EmulatedFile) -> bool {
    f.filesize == f.bytes@.len()
}

/// What the image holds after writing `b` at `off`: the untouched prefix,
/// the written bytes, and whatever of the old image lies past them.
pub open spec fn write_at_image(pre: Seq<u8>, b: Seq<u8>, off: int) -> Seq<u8> {
    pre.take(off) + b + (if off + b.len() <= pre.len() {
        pre.skip(off + b.len())
    } else {
        Seq::<u8>::empty()
    })
}

/// Reading back what was just written returns exactly the written bytes:
/// the round-trip law for one file under a single writer.
pub proof fn lemma_file_write_then_read(pre: Seq<u8>, b: Seq<u8>, off: int)
    requires
        0 <= off <= pre.len(),
    ensures
        write_at_image(pre, b, off).subrange(off, off + b.len()) == b,
        write_at_image(pre, b, off).len() >= off + b.len(),
{
    assert(write_at_image(pre, b, off).subrange(off, off + b.len()) =~= b);
}

impl EmulatedFile {
    /// A fresh file with the given backing image.
    pub fn from_bytes(filename: Vec<u8>, bytes: Vec<u8>) -> (r: EmulatedFile)
        ensures
            emfile_wf(r),
            r.bytes@ == bytes@,
            r.filename@ == filename@,
    {
        let filesize = bytes.len();
        EmulatedFile { filename, bytes, filesize }
    }

    /// Positional read: `count` bytes from `offset`, short at the end of
    /// the recorded size; an offset past it is a caller error.
    pub fn readat(&self, count: usize, offset: usize) -> (r: Result<Vec<u8>, i32>)
        requires
            emfile_wf(*self),
        ensures
            offset > self.filesize ==> (r matches Err(e) && e == -(EINVAL as i32)),
            offset <= self.filesize ==> (r matches Ok(out) && out@ == self.bytes@.subrange(
                offset as int,
                offset as int + (if count <= self.filesize - offset {
                    count as int
                } else {
                    self.filesize - offset
                }),
            )),
    {
        if offset > self.filesize {
            return Err(-EINVAL);
        }
        let n = if count <= self.filesize - offset {
            count
        } else {
            self.filesize - offset
        };
        let mut out: Vec<u8> = Vec::new();
        let mut k: usize = 0;
        while k < n
            invariant
                emfile_wf(*self),
                offset + n <= self.bytes@.len(),
                k <= n,
                out@ == self.bytes@.subrange(offset as int, offset + k as int),
            decreases n - k,
        {
            out.push(self.bytes[offset + k]);
            proof {
                assert(self.bytes@.subrange(offset as int, offset + k + 1 as int)
                    =~= self.bytes@.subrange(offset as int, offset + k as int).push(
                    self.bytes@[offset + k as int],
                ));
            }
            k = k + 1;
        }
        Ok(out)
    }

    /// Positional write: splice `count` bytes of `buf` in at `offset`,
    /// growing the recorded size when the write runs past it; an offset
    /// past the recorded size is a caller error.
    pub fn writeat(&mut self, buf: &Vec<u8>, count: usize, offset: usize) -> (r: Result<
        usize,
        i32,
    >)
        requires
            emfile_wf(*old(self)),
            count <= buf@.len(),
        ensures
            emfile_wf(*final(self)),
            final(self).filename == old(self).filename,
            offset > old(self).filesize ==> (r matches Err(e) && e == -(EINVAL as i32))
                && *final(self) == *old(self),
            (offset <= old(self).filesize && count > usize::MAX - offset) ==> (r matches Err(e)
                && e == -(EINVAL as i32)) && *final(self) == *old(self),
            (offset <= old(self).filesize && count <= usize::MAX - offset) ==> (r matches Ok(n)
                && n == count) && final(self).bytes@ == write_at_image(
                old(self).bytes@,
                buf@.take(count as int),
                offset as int,
            ),
    {
        if offset > self.filesize {
            return Err(-EINVAL);
        }
        if count > usize::MAX - offset {
            return Err(-EINVAL);
        }
        let mut out: Vec<u8> = Vec::new();
        let mut k: usize = 0;
        // the untouched prefix
        while k < offset
            invariant
                emfile_wf(*self),
                offset <= self.bytes@.len(),
                k <= offset,
                out@ == self.bytes@.take(k as int),
            decreases offset - k,
        {
            out.push(self.bytes[k]);
            proof {
                assert(self.bytes@.take(k + 1 as int) =~= self.bytes@.take(k as int).push(
                    self.bytes@[k as int],
                ));
            }
            k = k + 1;
        }
        // the written bytes
        let mut j: usize = 0;
        while j < count
            invariant
                count <= buf@.len(),
                j <= count,
                out@ == self.bytes@.take(offset as int) + buf@.take(j as int),
            decreases count - j,
        {
            out.push(buf[j]);
            proof {
                assert(self.bytes@.take(offset as int) + buf@.take(j + 1 as int)
                    =~= (self.bytes@.take(offset as int) + buf@.take(j as int)).push(
                    buf@[j as int],
                ));
            }
            j = j + 1;
        }
        // whatever of the old image lies past the write
        let mut t: usize = offset + count;
        proof {
            if offset + count <= self.bytes@.len() {
                assert(self.bytes@.subrange(offset + count as int, t as int) =~= Seq::<
                    u8,
                >::empty());
                assert(out@ =~= self.bytes@.take(offset as int) + buf@.take(count as int)
                    + self.bytes@.subrange(offset + count as int, t as int));
            }
        }
        while t < self.bytes.len()
            invariant
                emfile_wf(*self),
                count <= buf@.len(),
                offset + count <= t,
                t <= self.bytes@.len() || t == offset + count,
                out@ == self.bytes@.take(offset as int) + buf@.take(count as int) + (if offset
                    + count <= self.bytes@.len() {
                    self.bytes@.subrange(offset + count as int, t as int)
                } else {
                    Seq::<u8>::empty()
                }),
            decreases self.bytes@.len() - t,
        {
            out.push(self.bytes[t]);
            proof {
                assert(self.bytes@.subrange(offset + count as int, t + 1 as int)
                    =~= self.bytes@.subrange(offset + count as int, t as int).push(
                    self.bytes@[t as int],
                ));
            }
            t = t + 1;
        }
        proof {
            if !(offset + count <= self.bytes@.len()) {
                assert(out@ =~= self.bytes@.take(offset as int) + buf@.take(count as int)
                    + Seq::<u8>::empty());
            }
            assert(out@ =~= write_at_image(
                self.bytes@,
                buf@.take(count as int),
                offset as int,
            ));
        }
        let newsize = out.len();
        self.bytes = out;
        self.filesize = newsize;
        Ok(count)
    }

    /// Truncate the file to `length`; a length past the recorded size is a
    /// caller error.
    pub fn shrink(&mut self, length: usize) -> (r: Result<(), i32>)
        requires
            emfile_wf(*old(self)),
        ensures
            emfile_wf(*final(self)),
            length > old(self).filesize ==> (r matches Err(e) && e == -(EINVAL as i32))
                && *final(self) == *old(self),
            length <= old(self).filesize ==> r is Ok && final(self).bytes@ == old(self).bytes@.take(length as int) && final(self).filesize == length,
    {
        if length > self.filesize {
            return Err(-EINVAL);
        }
        self.bytes.truncate(length);
        self.filesize = length;
        proof {
            assert(self.bytes@ =~= old(self).bytes@.take(length as int));
        }
        Ok(())
    }

    /// The whole image.
    pub fn readfile_to_new_bytes(&self) -> (r: Vec<u8>)
        ensures
            r@ == self.bytes@,
    {
        clone_bytes(&self.bytes)
    }

    /// Append the whole buffer at the recorded size.
    pub fn writefile_from_bytes(&mut self, buf: &Vec<u8>) -> (r: Result<usize, i32>)
        requires
            emfile_wf(*old(self)),
            buf@.len() <= usize::MAX - old(self).filesize,
        ensures
            emfile_wf(*final(self)),
            (r matches Ok(n) && n == buf@.len()),
            final(self).bytes@ == old(self).bytes@ + buf@,
    {
        let offset = self.filesize;
        let r = self.writeat(buf, buf.len(), offset);
        proof {
            assert(buf@.take(buf@.len() as int) =~= buf@);
            assert(final(self).bytes@ =~= old(self).bytes@ + buf@);
        }
        match r {
            Ok(n) => Ok(n),
            Err(_) => {
                proof {
                    assert(false);
                }
                Err(-EINVAL)
            },
        }
    }

    /// Write `count` zero bytes at `offset`.
    pub fn zerofill_at(&mut self, offset: usize, count: usize) -> (r: Result<usize, i32>)
        requires
            emfile_wf(*old(self)),
        ensures
            emfile_wf(*final(self)),
            (offset <= old(self).filesize && count <= usize::MAX - offset) ==> (r matches Ok(n)
                && n == count) && final(self).bytes@ == write_at_image(
                old(self).bytes@,
                Seq::<u8>::new(count as nat, |i: int| 0u8),
                offset as int,
            ),
    {
        let mut zeros: Vec<u8> = Vec::new();
        let mut k: usize = 0;
        while k < count
            invariant
                k <= count,
                zeros@ =~= Seq::<u8>::new(k as nat, |i: int| 0u8),
            decreases count - k,
        {
            zeros.push(0);
            proof {
                assert(zeros@ =~= Seq::<u8>::new((k + 1) as nat, |i: int| 0u8));
            }
            k = k + 1;
        }
        let r = self.writeat(&zeros, count, offset);
        proof {
            if offset <= old(self).filesize && count <= usize::MAX - offset {
                assert(zeros@.take(count as int) =~= zeros@);
            }
        }
        r
    }
}

} // verus!
