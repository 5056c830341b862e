//! Decisions of the HTTP gateway of the function service: how a function
//! call's path names its target, whether a posted object is created or
//! updated, and the status a reply carries.
use vstd::prelude::*;
use vstd::string::StringSliceAdditionalSpecFns;

verus! {

/// The HTTP gateway of the function service.
#[derive(Clone, Copy, Debug, Default, PartialEq, Eq, Structural)]
pub struct HttpGateway {}

/// A prompt for a function of a tenant's namespace.
#[derive(Clone, Debug, Default, PartialEq, Eq)]
pub struct PromptReq {
    pub tenant: String,
    pub namespace: String,
    pub funcname: String,
    pub prompt: String,
}

/// The byte that separates the segments of a path.
pub const PATH_SEP: u8 = 0x2f;

/// HTTP status `200 OK`.
pub const STATUS_OK: u16 = 200;

/// HTTP status `400 Bad Request`.
pub const STATUS_BAD_REQUEST: u16 = 400;

/// The segments of `s` split at every `sep` byte, each as the half-open
/// range of its bytes: a separator ends the current segment and starts a
/// new one right after it.
pub open spec fn spec_split(s: Seq<u8>, sep: u8) -> Seq<(int, int)>
    decreases s.len(),
{
    if s.len() == 0 {
        seq![(0int, 0int)]
    } else {
        let prev = spec_split(s.drop_last(), sep);
        if s.last() == sep {
            prev.push((s.len() as int, s.len() as int))
        } else {
            prev.drop_last().push((prev.last().0, s.len() as int))
        }
    }
}

/// The byte ranges as integers.
pub open spec fn ranges_view(parts: Seq<(usize, usize)>) -> Seq<(int, int)> {
    parts.map_values(|p: (usize, usize)| (p.0 as int, p.1 as int))
}

/// The segments of a path, split at `/`, as byte ranges of the path.
pub fn split_path(path: &str) -> (parts: Vec<(usize, usize)>)
    ensures
        ranges_view(parts@) == spec_split(path.spec_bytes(), PATH_SEP),
{
    let bytes = path.as_bytes();
    let mut parts: Vec<(usize, usize)> = Vec::new();
    let mut start: usize = 0;
    let mut i: usize = 0;
    while i < bytes.len()
        invariant
            i <= bytes@.len(),
            start <= i,
            bytes@ == path.spec_bytes(),
            ranges_view(parts@).push((start as int, i as int)) == spec_split(
                bytes@.take(i as int),
                PATH_SEP,
            ),
        decreases bytes@.len() - i,
    {
        let ghost prev_parts = parts@;
        let ghost prev_start = start;
        assert(bytes@.take(i as int + 1).drop_last() =~= bytes@.take(i as int));
        if bytes[i] == PATH_SEP {
            parts.push((start, i));
            start = i + 1;
            assert(ranges_view(parts@) =~= ranges_view(prev_parts).push(
                (prev_start as int, i as int),
            ));
        }
        i = i + 1;
        assert(ranges_view(parts@).push((start as int, i as int)) =~= spec_split(
            bytes@.take(i as int),
            PATH_SEP,
        ));
    }
    assert(bytes@.take(i as int) =~= bytes@);
    let ghost prev_parts = parts@;
    parts.push((start, bytes.len()));
    assert(ranges_view(parts@) =~= ranges_view(prev_parts).push(
        (start as int, bytes@.len() as int),
    ));
    parts
}

/// The tenant, namespace and function name a function call's path names:
/// its third, fourth and fifth segment, as byte ranges of the path.
pub fn funccall_target(path: &str) -> (target: ((usize, usize), (usize, usize), (usize, usize)))
    requires
        spec_split(path.spec_bytes(), PATH_SEP).len() >= 5,
    ensures
        (target.0.0 as int, target.0.1 as int) == spec_split(path.spec_bytes(), PATH_SEP)[2],
        (target.1.0 as int, target.1.1 as int) == spec_split(path.spec_bytes(), PATH_SEP)[3],
        (target.2.0 as int, target.2.1 as int) == spec_split(path.spec_bytes(), PATH_SEP)[4],
{
    let parts = split_path(path);
    assert(ranges_view(parts@)[2] == (parts@[2].0 as int, parts@[2].1 as int));
    assert(ranges_view(parts@)[3] == (parts@[3].0 as int, parts@[3].1 as int));
    assert(ranges_view(parts@)[4] == (parts@[4].0 as int, parts@[4].1 as int));
    (parts[2], parts[3], parts[4])
}

/// What the gateway does with a posted object.
#[derive(Clone, Copy, Debug, PartialEq, Eq, Structural)]
pub enum StoreOp {
    Create,
    Update,
}

/// A posted object updates the stored one of the same name, if there is
/// one, and is created otherwise.
pub fn upsert_op(exists: bool) -> (op: StoreOp)
    ensures
        op == (if exists {
            StoreOp::Update
        } else {
            StoreOp::Create
        }),
{
    if exists {
        StoreOp::Update
    } else {
        StoreOp::Create
    }
}

/// The status of a reply: `200` for a request that succeeded, `400` for one
/// that failed.
pub fn reply_status(succeeded: bool) -> (status: u16)
    ensures
        status == (if succeeded {
            STATUS_OK
        } else {
            STATUS_BAD_REQUEST
        }),
{
    if succeeded {
        STATUS_OK
    } else {
        STATUS_BAD_REQUEST
    }
}


/// `r` splits `s` at `sep`: the segments cover the bytes from first to
/// last, none holds a separator, and each two consecutive segments have
/// exactly one separator between them.
pub open spec fn is_split_of(s: Seq<u8>, sep: u8, r: Seq<(int, int)>) -> bool {
    &&& r.len() >= 1
    &&& r[0].0 == 0
    &&& r.last().1 == s.len()
    &&& forall|k: int|
        #![trigger r[k].1]
        0 <= k < r.len() ==> 0 <= r[k].0 && r[k].0 <= r[k].1 && r[k].1 <= s.len()
    &&& forall|k: int, j: int|
        0 <= k < r.len() && #[trigger] r[k].0 <= j < r[k].1 ==> #[trigger] s[j] != sep
    &&& forall|k: int|
        0 <= k < r.len() - 1 ==> s[#[trigger] r[k].1] == sep && r[k + 1].0 == r[k].1 + 1
}

proof fn lemma_split_push_sep(s: Seq<u8>, sep: u8, rp: Seq<(int, int)>, r: Seq<(int, int)>)
    requires
        s.len() > 0,
        s.last() == sep,
        is_split_of(s.drop_last(), sep, rp),
        r == rp.push((s.len() as int, s.len() as int)),
    ensures
        is_split_of(s, sep, r),
{
    let p = s.drop_last();
    assert forall|k: int, j: int| 0 <= k < r.len() && #[trigger] r[k].0 <= j < r[k].1 implies #[trigger] s[j] != sep by {
        assert(k < rp.len());
        assert(rp[k].0 <= j < rp[k].1);
        assert(p[j] != sep);
    }
    assert forall|k: int| 0 <= k < r.len() - 1 implies s[#[trigger] r[k].1] == sep && r[k + 1].0 == r[k].1 + 1 by {
        let l = k + 1;
        if l < rp.len() {
            assert(rp[l].0 == rp[k].1 + 1);
            assert(rp[l].0 <= rp[l].1 <= p.len());
            assert(0 <= rp[k].0 <= rp[k].1);
            assert(s[rp[k].1] == p[rp[k].1]);
        } else {
            assert(rp.last().1 == p.len());
            assert(s[p.len() as int] == s.last());
        }
    }
}

proof fn lemma_split_extend(s: Seq<u8>, sep: u8, rp: Seq<(int, int)>, r: Seq<(int, int)>)
    requires
        s.len() > 0,
        s.last() != sep,
        is_split_of(s.drop_last(), sep, rp),
        r == rp.drop_last().push((rp.last().0, s.len() as int)),
    ensures
        r.len() >= 1,
        r[0].0 == 0,
        r.last().1 == s.len(),
        forall|k: int|
            #![trigger r[k].1]
            0 <= k < r.len() ==> 0 <= r[k].0 && r[k].0 <= r[k].1 && r[k].1 <= s.len(),
        forall|k: int, j: int|
            0 <= k < r.len() && #[trigger] r[k].0 <= j < r[k].1 ==> #[trigger] s[j] != sep,
        forall|k: int|
            0 <= k < r.len() - 1 ==> s[#[trigger] r[k].1] == sep && r[k + 1].0 == r[k].1 + 1,
        is_split_of(s, sep, r),
{
    let p = s.drop_last();
    let n = rp.len();
    assert forall|k: int|
        #![trigger r[k].1]
        0 <= k < r.len() implies 0 <= r[k].0 && r[k].0 <= r[k].1 && r[k].1 <= s.len() by {
        if k < n - 1 {
            assert(r[k] == rp[k]);
            assert(0 <= rp[k].0 <= rp[k].1 <= p.len());
        } else {
            assert(k == n - 1);
            assert(0 <= rp[n - 1].0 <= rp[n - 1].1 <= p.len());
            assert(r[k] == (rp[n - 1].0, s.len() as int));
        }
    }
    assert forall|k: int, j: int| 0 <= k < r.len() && #[trigger] r[k].0 <= j < r[k].1 implies #[trigger] s[j] != sep by {
        if k < n - 1 {
            assert(rp[k].0 <= j < rp[k].1);
            assert(p[j] != sep);
        } else if j < p.len() {
            assert(rp[n - 1].0 <= j < rp[n - 1].1);
            assert(p[j] != sep);
        } else {
            assert(j == p.len());
            assert(s[j] == s.last());
        }
    }
    assert forall|k: int| 0 <= k < r.len() - 1 implies s[#[trigger] r[k].1] == sep && r[k + 1].0 == r[k].1 + 1 by {
        let l = k + 1;
        assert(r[k] == rp[k]);
        assert(rp[l].0 == rp[k].1 + 1);
        assert(rp[l].0 <= rp[l].1 <= p.len());
        assert(0 <= rp[k].0 <= rp[k].1);
        assert(s[rp[k].1] == p[rp[k].1]);
    }
    assert(r.len() >= 1);
    assert(r[0].0 == 0);
    assert(r.last().1 == s.len());
}

/// The segments of a split are what splitting means: they cover the bytes
/// from first to last, none holds a separator, and each two consecutive
/// segments have exactly one separator between them.
pub proof fn lemma_split_segments(s: Seq<u8>, sep: u8)
    ensures
        is_split_of(s, sep, spec_split(s, sep)),
    decreases s.len(),
{
    if s.len() > 0 {
        lemma_split_segments(s.drop_last(), sep);
        if s.last() == sep {
            lemma_split_push_sep(s, sep, spec_split(s.drop_last(), sep), spec_split(s, sep));
        } else {
            lemma_split_extend(s, sep, spec_split(s.drop_last(), sep), spec_split(s, sep));
        }
    }
}

} // verus!
