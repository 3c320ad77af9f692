use vstd::prelude::*;
use vstd::slice::slice_subrange;
use crate::packet::{Packet, PAYLOAD_OFFSET};

verus! {

/// Default number of bytes an extension may allocate on the table heap
/// while serving one request.
pub const MAX_ALLOC: usize = 10240;

/// What an extension sees of the request it serves: its arguments, the
/// response it writes, and its allocation quota. The context owns both
/// packets and gives them back on commit.
pub struct Context {
    request: Packet,
    args_offset: usize,
    args_length: usize,
    response: Packet,
    allocs: usize,
    quota: usize,
}

impl Context {
    pub closed spec fn request_spec(&self) -> Packet {
        self.request
    }

    pub closed spec fn response_spec(&self) -> Packet {
        self.response
    }

    pub closed spec fn args_offset_spec(&self) -> usize {
        self.args_offset
    }

    pub closed spec fn args_length_spec(&self) -> usize {
        self.args_length
    }

    pub closed spec fn allocs_spec(&self) -> usize {
        self.allocs
    }

    pub closed spec fn quota_spec(&self) -> usize {
        self.quota
    }

    /// The arguments lie within the request's UDP payload.
    pub closed spec fn wf(&self) -> bool {
        PAYLOAD_OFFSET + self.args_offset + self.args_length <= self.request.data@.len()
    }

    /// A context for the extension invoked by `req`, whose arguments are the
    /// `args_len` bytes at `args_off` in the request's UDP payload, writing
    /// into `res`, with the default allocation quota.
    pub fn new(req: Packet, args_off: usize, args_len: usize, res: Packet) -> (c: Context)
        requires
            PAYLOAD_OFFSET + args_off + args_len <= req.data@.len(),
        ensures
            c.wf(),
            c.request_spec() == req,
            c.response_spec() == res,
            c.args_offset_spec() == args_off,
            c.args_length_spec() == args_len,
            c.allocs_spec() == 0,
            c.quota_spec() == MAX_ALLOC,
    {
        Context::with_quota(req, args_off, args_len, res, MAX_ALLOC)
    }

    /// As `new`, with an allocation quota of `quota` bytes.
    pub fn with_quota(req: Packet, args_off: usize, args_len: usize, res: Packet, quota: usize) -> (c:
        Context)
        requires
            PAYLOAD_OFFSET + args_off + args_len <= req.data@.len(),
        ensures
            c.wf(),
            c.request_spec() == req,
            c.response_spec() == res,
            c.args_offset_spec() == args_off,
            c.args_length_spec() == args_len,
            c.allocs_spec() == 0,
            c.quota_spec() == quota,
    {
        Context {
            request: req,
            args_offset: args_off,
            args_length: args_len,
            response: res,
            allocs: 0,
            quota,
        }
    }

    /// Ends the extension's run and gives back the request and the response.
    pub fn commit(self) -> (r: (Packet, Packet))
        ensures
            r == (self.request_spec(), self.response_spec()),
    {
        (self.request, self.response)
    }

    /// The extension's arguments.
    pub fn args(&self) -> (a: &[u8])
        requires
            self.wf(),
        ensures
            a@ == self.request_spec().data@.subrange(
                PAYLOAD_OFFSET + self.args_offset_spec(),
                PAYLOAD_OFFSET + self.args_offset_spec() + self.args_length_spec(),
            ),
    {
        let n = self.request.data.len();
        assert(PAYLOAD_OFFSET + self.args_offset + self.args_length <= n);
        let start = PAYLOAD_OFFSET + self.args_offset;
        slice_subrange(self.request.data.as_slice(), start, start + self.args_length)
    }

    /// Appends `data` to the response payload.
    pub fn resp(&mut self, data: &[u8])
        requires
            old(self).wf(),
        ensures
            final(self).wf(),
            final(self).response_spec().data@ == old(self).response_spec().data@ + data@,
            final(self).request_spec() == old(self).request_spec(),
            final(self).args_offset_spec() == old(self).args_offset_spec(),
            final(self).args_length_spec() == old(self).args_length_spec(),
            final(self).allocs_spec() == old(self).allocs_spec(),
            final(self).quota_spec() == old(self).quota_spec(),
    {
        let ghost start = self.response.data@;
        let mut i: usize = 0;
        while i < data.len()
            invariant
                i <= data@.len(),
                self.response.data@ == start + data@.take(i as int),
                self.request == old(self).request,
                self.args_offset == old(self).args_offset,
                self.args_length == old(self).args_length,
                self.allocs == old(self).allocs,
                self.quota == old(self).quota,
            decreases data@.len() - i,
        {
            self.response.data.push(data[i]);
            i = i + 1;
            assert(self.response.data@ =~= start + data@.take(i as int));
        }
        assert(data@.take(data@.len() as int) =~= data@);
    }

    /// Whether the extension may still allocate: it has allocated less
    /// than its quota so far.
    pub fn may_alloc(&self) -> (ok: bool)
        ensures
            ok == (self.allocs_spec() < self.quota_spec()),
    {
        self.allocs < self.quota
    }

    /// Charges an allocation of `n` bytes against the quota (saturating).
    pub fn charge(&mut self, n: usize)
        requires
            old(self).wf(),
        ensures
            final(self).wf(),
            final(self).allocs_spec() == if old(self).allocs_spec() + n <= usize::MAX {
                old(self).allocs_spec() + n
            } else {
                usize::MAX as int
            },
            final(self).request_spec() == old(self).request_spec(),
            final(self).response_spec() == old(self).response_spec(),
            final(self).args_offset_spec() == old(self).args_offset_spec(),
            final(self).args_length_spec() == old(self).args_length_spec(),
            final(self).quota_spec() == old(self).quota_spec(),
    {
        self.allocs = self.allocs.saturating_add(n);
    }
}

/// The keys of a multiget request laid end to end: whole keys of
/// `key_len` bytes, with nothing left over.
pub open spec fn keys_well_formed(keys: Seq<u8>, key_len: u16) -> bool {
    key_len > 0 && (keys.len() as int) % (key_len as int) == 0
}

/// Splits the keys of a multiget into keys of `key_len` bytes, in order.
/// All or nothing: a zero key length or a trailing partial key yields
/// `None`.
pub fn split_keys(keys: &[u8], key_len: u16) -> (r: Option<Vec<Vec<u8>>>)
    ensures
        r is Some <==> keys_well_formed(keys@, key_len),
        r matches Some(v) ==> {
            &&& v@.len() * (key_len as int) == keys@.len()
            &&& forall|i: int|
                0 <= i < v@.len() ==> (#[trigger] v@[i])@ == keys@.subrange(
                    i * key_len,
                    (i + 1) * key_len,
                )
        },
{
    let kl = key_len as usize;
    if kl == 0 || keys.len() % kl != 0 {
        return None;
    }
    let mut out: Vec<Vec<u8>> = Vec::new();
    let mut pos: usize = 0;
    let total = keys.len();
    assert(out@.len() * kl == 0);
    while pos < total
        invariant
            total == keys@.len(),
            kl > 0,
            kl == key_len,
            (keys@.len() as int) % (kl as int) == 0,
            pos <= keys@.len(),
            pos as int == out@.len() * kl,
            forall|i: int|
                0 <= i < out@.len() ==> (#[trigger] out@[i])@ == keys@.subrange(i * kl, (i + 1) * kl),
        decreases keys@.len() - pos,
    {
        proof {
            let q = out@.len() as int;
            assert(pos as int == q * kl);
            assert(keys@.len() as int == (keys@.len() as int / kl as int) * kl) by (nonlinear_arith)
                requires
                    keys@.len() as int % kl as int == 0,
                    kl > 0,
            ;
            let n = keys@.len() as int / kl as int;
            assert(q < n) by (nonlinear_arith)
                requires
                    q * kl < n * kl,
                    kl > 0,
            ;
            assert((q + 1) * kl <= n * kl) by (nonlinear_arith)
                requires
                    q + 1 <= n,
                    kl > 0,
            ;
            assert((q + 1) * kl == q * kl + kl) by (nonlinear_arith);
        }
        let mut key: Vec<u8> = Vec::with_capacity(kl);
        let mut j: usize = 0;
        while j < kl
            invariant
                total == keys@.len(),
                pos + kl <= total,
                j <= kl,
                key@ == keys@.subrange(pos as int, pos + j),
            decreases kl - j,
        {
            key.push(keys[pos + j]);
            j = j + 1;
            assert(key@ =~= keys@.subrange(pos as int, pos + j));
        }
        proof {
            let q = out@.len() as int;
            assert((q + 1) * kl == q * kl + kl) by (nonlinear_arith);
        }
        out.push(key);
        pos = pos + kl;
    }
    Some(out)
}

} // verus!
