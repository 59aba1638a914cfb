//! The persistent per-user record: shape invariant, stable binary encoding,
//! and the quality-aware merge used by enhancement.
//!
//! Embedding components and quality scores are IEEE-754 single-precision bit
//! patterns held in `u32` values. Quality scores lie in [0, 1], and for
//! non-negative finite floats the unsigned order of the bit patterns is the
//! order of the floats, so the merge compares qualities directly on the bits.
//!
//! Reading and writing the record file is the caller's business; this module
//! turns records into bytes and back, and rejects on decode any byte string
//! whose record would break the shape invariant.

use vstd::prelude::*;
use vstd::multiset::Multiset;
use crate::codec::{
    spec_write_u32, spec_write_string, spec_write_vec32_list, spec_write_opt_vec32, spec_read_u32,
    spec_read_string, spec_read_vec32_list, spec_read_opt_vec32, write_u32, write_string,
    write_vec32_list, write_opt_vec32, read_u32, read_string, read_vec32_list, read_opt_vec32,
    lemma_read_u32_at, lemma_read_string_at, lemma_read_vec32_list_at, lemma_read_opt_vec32_at,
    lemma_write_u32_len,
};

verus! {

/// Version number written into every record this library saves.
pub const STORAGE_VERSION: u32 = 1;

/// A user's enrollment record.
#[derive(Debug, Clone, PartialEq)]
pub struct UserData {
    pub version: u32,
    pub username: String,
    pub embeddings: Vec<Vec<u32>>,
    pub averaged_embedding: Option<Vec<u32>>,
    pub embedding_qualities: Option<Vec<u32>>,
}

pub ghost struct UserDataV {
    pub version: u32,
    pub username: Seq<char>,
    pub embeddings: Seq<Seq<u32>>,
    pub averaged_embedding: Option<Seq<u32>>,
    pub embedding_qualities: Option<Seq<u32>>,
}

impl View for UserData {
    type V = UserDataV;

    open spec fn view(&self) -> UserDataV {
        UserDataV {
            version: self.version,
            username: self.username@,
            embeddings: self.embeddings.deep_view(),
            averaged_embedding: self.averaged_embedding.deep_view(),
            embedding_qualities: self.embedding_qualities.deep_view(),
        }
    }
}

/// The record shape: at least one embedding, all of one dimension; the
/// averaged embedding, when present, has that dimension; the quality list,
/// when present, has one entry per embedding.
pub open spec fn user_data_wf(d: UserDataV) -> bool {
    &&& d.embeddings.len() >= 1
    &&& forall|i: int|
        0 <= i < d.embeddings.len() ==> #[trigger] d.embeddings[i].len()
            == d.embeddings[0].len()
    &&& match d.averaged_embedding {
        Some(a) => a.len() == d.embeddings[0].len(),
        None => true,
    }
    &&& match d.embedding_qualities {
        Some(q) => q.len() == d.embeddings.len(),
        None => true,
    }
}

impl UserData {
    /// Runtime check of the record shape.
    pub fn is_wf(&self) -> (r: bool)
        ensures
            r == user_data_wf(self@),
    {
        if self.embeddings.len() == 0 {
            return false;
        }
        let dim = self.embeddings[0].len();
        let mut i: usize = 1;
        while i < self.embeddings.len()
            invariant
                1 <= i <= self.embeddings.len(),
                dim == self@.embeddings[0].len(),
                self@.embeddings.len() == self.embeddings.len(),
                forall|j: int| 0 <= j < i ==> #[trigger] self@.embeddings[j].len() == dim,
            decreases self.embeddings.len() - i,
        {
            if self.embeddings[i].len() != dim {
                assert(self@.embeddings[i as int].len() != dim);
                return false;
            }
            assert(self@.embeddings[i as int].len() == dim);
            i = i + 1;
        }
        match &self.averaged_embedding {
            Some(a) => {
                if a.len() != dim {
                    assert(self@.averaged_embedding == Some(a@));
                    return false;
                }
            },
            None => {},
        }
        match &self.embedding_qualities {
            Some(q) => {
                if q.len() != self.embeddings.len() {
                    assert(self@.embedding_qualities == Some(q@));
                    return false;
                }
            },
            None => {},
        }
        proof {
            assert(user_data_wf(self@));
        }
        true
    }
}

// ---------------------------------------------------------------------------
// Record encoding
// ---------------------------------------------------------------------------

pub open spec fn user_data_enc_wf(d: UserDataV) -> bool {
    &&& vstd::utf8::encode_utf8(d.username).len() <= u64::MAX
    &&& d.embeddings.len() <= u64::MAX
    &&& forall|i: int| 0 <= i < d.embeddings.len() ==> #[trigger] d.embeddings[i].len() <= u64::MAX
    &&& match d.averaged_embedding {
        Some(a) => a.len() <= u64::MAX,
        None => true,
    }
    &&& match d.embedding_qualities {
        Some(q) => q.len() <= u64::MAX,
        None => true,
    }
}

pub open spec fn spec_encode_user_data(d: UserDataV) -> Seq<u8> {
    spec_write_u32(d.version) + spec_write_string(d.username) + spec_write_vec32_list(d.embeddings)
        + spec_write_opt_vec32(d.averaged_embedding) + spec_write_opt_vec32(d.embedding_qualities)
}

/// Structural decode followed by the shape check: a byte string whose record
/// would break the invariant does not decode.
pub open spec fn spec_decode_user_data(b: Seq<u8>) -> Option<UserDataV> {
    match spec_read_u32(b, 0) {
        Some((version, p0)) => match spec_read_string(b, p0) {
            Some((username, p1)) => match spec_read_vec32_list(b, p1) {
                Some((embeddings, p2)) => match spec_read_opt_vec32(b, p2) {
                    Some((averaged_embedding, p3)) => match spec_read_opt_vec32(b, p3) {
                        Some((embedding_qualities, p4)) => if p4 == b.len() {
                            let d = UserDataV {
                                version,
                                username,
                                embeddings,
                                averaged_embedding,
                                embedding_qualities,
                            };
                            if user_data_wf(d) {
                                Some(d)
                            } else {
                                None
                            }
                        } else {
                            None
                        },
                        None => None,
                    },
                    None => None,
                },
                None => None,
            },
            None => None,
        },
        None => None,
    }
}

pub fn encode_user_data(d: &UserData) -> (out: Vec<u8>)
    ensures
        out@ == spec_encode_user_data(d@),
{
    let mut out: Vec<u8> = Vec::new();
    write_u32(&mut out, d.version);
    write_string(&mut out, &d.username);
    write_vec32_list(&mut out, &d.embeddings);
    write_opt_vec32(&mut out, &d.averaged_embedding);
    write_opt_vec32(&mut out, &d.embedding_qualities);
    proof {
        assert(out@ =~= spec_encode_user_data(d@));
    }
    out
}

pub fn decode_user_data(b: &Vec<u8>) -> (r: Option<UserData>)
    ensures
        match r {
            Some(d) => spec_decode_user_data(b@) == Some(d@) && user_data_wf(d@),
            None => spec_decode_user_data(b@) is None,
        },
{
    let (version, p0) = match read_u32(b, 0) {
        Some(x) => x,
        None => {
            return None;
        },
    };
    let (username, p1) = match read_string(b, p0) {
        Some(x) => x,
        None => {
            return None;
        },
    };
    let (embeddings, p2) = match read_vec32_list(b, p1) {
        Some(x) => x,
        None => {
            return None;
        },
    };
    let (averaged_embedding, p3) = match read_opt_vec32(b, p2) {
        Some(x) => x,
        None => {
            return None;
        },
    };
    let (embedding_qualities, p4) = match read_opt_vec32(b, p3) {
        Some(x) => x,
        None => {
            return None;
        },
    };
    if p4 != b.len() {
        return None;
    }
    let d = UserData { version, username, embeddings, averaged_embedding, embedding_qualities };
    if d.is_wf() {
        Some(d)
    } else {
        None
    }
}

/// Decoding an encoded record gives back exactly the record.
pub proof fn lemma_user_data_round_trip(d: UserDataV)
    requires
        user_data_wf(d),
        user_data_enc_wf(d),
    ensures
        spec_decode_user_data(spec_encode_user_data(d)) == Some(d),
{
    let b = spec_encode_user_data(d);
    let e0 = spec_write_u32(d.version);
    let e1 = spec_write_string(d.username);
    let e2 = spec_write_vec32_list(d.embeddings);
    let e3 = spec_write_opt_vec32(d.averaged_embedding);
    let e4 = spec_write_opt_vec32(d.embedding_qualities);
    lemma_write_u32_len(d.version);
    let p0 = e0.len() as int;
    let p1 = p0 + e1.len();
    let p2 = p1 + e2.len();
    let p3 = p2 + e3.len();
    let p4 = p3 + e4.len();
    assert(b.len() == p4);
    assert(b.subrange(0, 4) =~= e0);
    lemma_read_u32_at(b, 0, d.version);
    assert(b.subrange(p0, p0 + e1.len()) =~= e1);
    lemma_read_string_at(b, p0, d.username);
    assert(b.subrange(p1, p1 + e2.len()) =~= e2);
    lemma_read_vec32_list_at(b, p1, d.embeddings);
    assert(b.subrange(p2, p2 + e3.len()) =~= e3);
    lemma_read_opt_vec32_at(b, p2, d.averaged_embedding);
    assert(b.subrange(p3, p3 + e4.len()) =~= e4);
    lemma_read_opt_vec32_at(b, p3, d.embedding_qualities);
}

// ---------------------------------------------------------------------------
// Quality-aware merge
// ---------------------------------------------------------------------------

/// Index of the weakest quality: the first position holding the minimum.
pub open spec fn min_q_index(q: Seq<u32>) -> int
    recommends
        q.len() >= 1,
    decreases q.len(),
{
    if q.len() <= 1 {
        0
    } else {
        let r = min_q_index(q.drop_last());
        if q[q.len() - 1] < q[r] {
            q.len() - 1
        } else {
            r
        }
    }
}

pub proof fn lemma_min_q_index_props(q: Seq<u32>)
    requires
        q.len() >= 1,
    ensures
        0 <= min_q_index(q) < q.len(),
        forall|i: int| 0 <= i < q.len() ==> q[min_q_index(q)] <= #[trigger] q[i],
    decreases q.len(),
{
    if q.len() > 1 {
        let dq = q.drop_last();
        lemma_min_q_index_props(dq);
        let r = min_q_index(dq);
        assert(q[r] == dq[r]);
        if q[q.len() - 1] < q[r] {
            assert(min_q_index(q) == q.len() - 1);
            assert forall|i: int| 0 <= i < q.len() implies q[min_q_index(q)] <= #[trigger] q[i] by {
                if i < q.len() - 1 {
                    assert(dq[r] <= dq[i]);
                    assert(dq[i] == q[i]);
                }
            }
        } else {
            assert(min_q_index(q) == r);
            assert forall|i: int| 0 <= i < q.len() implies q[min_q_index(q)] <= #[trigger] q[i] by {
                if i < q.len() - 1 {
                    assert(dq[r] <= dq[i]);
                    assert(dq[i] == q[i]);
                }
            }
        }
    }
}

/// Outcome of merging new samples into a record's embeddings and qualities.
pub ghost struct MergeResult {
    pub embs: Seq<Seq<u32>>,
    pub quals: Seq<u32>,
    pub replaced: nat,
}

/// The merge policy. Each new sample in order: when replacement is on and
/// the new sample's quality exceeds the current weakest slot's, the weakest
/// slot is overwritten; otherwise the sample is appended.
pub open spec fn spec_merge(
    embs: Seq<Seq<u32>>,
    quals: Seq<u32>,
    ne: Seq<Seq<u32>>,
    nq: Seq<u32>,
    replace: bool,
) -> MergeResult
    decreases ne.len(),
{
    if ne.len() == 0 {
        MergeResult { embs, quals, replaced: 0 }
    } else {
        let e = ne[0];
        let q = nq[0];
        if replace && quals.len() > 0 && q > quals[min_q_index(quals)] {
            let i = min_q_index(quals);
            let r = spec_merge(embs.update(i, e), quals.update(i, q), ne.skip(1), nq.skip(1), true);
            MergeResult { embs: r.embs, quals: r.quals, replaced: r.replaced + 1 }
        } else {
            spec_merge(embs.push(e), quals.push(q), ne.skip(1), nq.skip(1), replace)
        }
    }
}

/// Shape facts about the merge: lengths, counts and dimensions.
pub proof fn lemma_merge_props(
    embs: Seq<Seq<u32>>,
    quals: Seq<u32>,
    ne: Seq<Seq<u32>>,
    nq: Seq<u32>,
    replace: bool,
    d: nat,
)
    requires
        quals.len() == embs.len(),
        nq.len() == ne.len(),
        forall|i: int| 0 <= i < embs.len() ==> #[trigger] embs[i].len() == d,
        forall|i: int| 0 <= i < ne.len() ==> #[trigger] ne[i].len() == d,
    ensures
        spec_merge(embs, quals, ne, nq, replace).quals.len() == spec_merge(
            embs,
            quals,
            ne,
            nq,
            replace,
        ).embs.len(),
        spec_merge(embs, quals, ne, nq, replace).replaced + spec_merge(
            embs,
            quals,
            ne,
            nq,
            replace,
        ).embs.len() == embs.len() + ne.len(),
        spec_merge(embs, quals, ne, nq, replace).replaced <= ne.len(),
        embs.len() <= spec_merge(embs, quals, ne, nq, replace).embs.len() <= embs.len() + ne.len(),
        forall|i: int|
            0 <= i < spec_merge(embs, quals, ne, nq, replace).embs.len()
                ==> #[trigger] spec_merge(embs, quals, ne, nq, replace).embs[i].len() == d,
    decreases ne.len(),
{
    if ne.len() == 0 {
    } else {
        let e = ne[0];
        let q = nq[0];
        if replace && quals.len() > 0 && q > quals[min_q_index(quals)] {
            let i = min_q_index(quals);
            lemma_min_q_index_props(quals);
            lemma_merge_props(embs.update(i, e), quals.update(i, q), ne.skip(1), nq.skip(1), true, d);
        } else {
            lemma_merge_props(embs.push(e), quals.push(q), ne.skip(1), nq.skip(1), replace, d);
        }
    }
}

/// With replacement off, the merge appends every sample in order.
pub proof fn lemma_merge_append(embs: Seq<Seq<u32>>, quals: Seq<u32>, ne: Seq<Seq<u32>>, nq: Seq<u32>)
    requires
        nq.len() == ne.len(),
    ensures
        spec_merge(embs, quals, ne, nq, false) == (MergeResult {
            embs: embs + ne,
            quals: quals + nq,
            replaced: 0,
        }),
    decreases ne.len(),
{
    if ne.len() == 0 {
        assert(embs + ne =~= embs);
        assert(quals + nq =~= quals);
    } else {
        lemma_merge_append(embs.push(ne[0]), quals.push(nq[0]), ne.skip(1), nq.skip(1));
        assert(embs.push(ne[0]) + ne.skip(1) =~= embs + ne);
        assert(quals.push(nq[0]) + nq.skip(1) =~= quals + nq);
    }
}

/// The qualities a merge drops: one weakest slot per replacement.
pub open spec fn spec_merge_dropped(
    embs: Seq<Seq<u32>>,
    quals: Seq<u32>,
    ne: Seq<Seq<u32>>,
    nq: Seq<u32>,
    replace: bool,
) -> Multiset<u32>
    decreases ne.len(),
{
    if ne.len() == 0 {
        Multiset::empty()
    } else {
        let e = ne[0];
        let q = nq[0];
        if replace && quals.len() > 0 && q > quals[min_q_index(quals)] {
            let i = min_q_index(quals);
            spec_merge_dropped(
                embs.update(i, e),
                quals.update(i, q),
                ne.skip(1),
                nq.skip(1),
                true,
            ).insert(quals[i])
        } else {
            spec_merge_dropped(embs.push(e), quals.push(q), ne.skip(1), nq.skip(1), replace)
        }
    }
}

proof fn lemma_update_to_multiset(s: Seq<u32>, i: int, x: u32)
    requires
        0 <= i < s.len(),
    ensures
        s.update(i, x).to_multiset() == s.to_multiset().remove(s[i]).insert(x),
{
    broadcast use vstd::seq_lib::group_to_multiset_ensures;

    let u = s.update(i, x);
    assert(u.remove(i) =~= s.remove(i));
    assert(u.remove(i).to_multiset() == u.to_multiset().remove(u[i]));
    assert(s.remove(i).to_multiset() == s.to_multiset().remove(s[i]));
    assert(u[i] == x);
    assert(u.to_multiset().contains(x)) by {
        assert(u.contains(x));
    }
    assert(u.to_multiset() =~= s.to_multiset().remove(s[i]).insert(x)) by {
        assert(u.to_multiset().remove(x).insert(x) =~= u.to_multiset());
    }
}

proof fn lemma_first_to_multiset(s: Seq<u32>)
    requires
        s.len() >= 1,
    ensures
        s.to_multiset() == s.skip(1).to_multiset().insert(s[0]),
{
    broadcast use vstd::seq_lib::group_to_multiset_ensures;

    assert(s.skip(1) =~= s.remove(0));
    assert(s.remove(0).to_multiset() == s.to_multiset().remove(s[0]));
    assert(s.to_multiset().contains(s[0])) by {
        assert(s.contains(s[0]));
    }
    assert(s.to_multiset().remove(s[0]).insert(s[0]) =~= s.to_multiset());
}

/// Nothing is lost or invented by a merge: the retained qualities together
/// with the dropped ones are exactly the original pool plus the new
/// samples.
pub proof fn lemma_merge_conservation(
    embs: Seq<Seq<u32>>,
    quals: Seq<u32>,
    ne: Seq<Seq<u32>>,
    nq: Seq<u32>,
    replace: bool,
)
    requires
        quals.len() == embs.len(),
        nq.len() == ne.len(),
    ensures
        spec_merge(embs, quals, ne, nq, replace).quals.to_multiset().add(
            spec_merge_dropped(embs, quals, ne, nq, replace),
        ) == quals.to_multiset().add(nq.to_multiset()),
        spec_merge_dropped(embs, quals, ne, nq, replace).len() == spec_merge(
            embs,
            quals,
            ne,
            nq,
            replace,
        ).replaced,
    decreases ne.len(),
{
    broadcast use vstd::seq_lib::group_to_multiset_ensures;
    broadcast use vstd::multiset::group_multiset_axioms;

    if ne.len() == 0 {
        assert(nq =~= Seq::<u32>::empty());
        assert(nq.to_multiset() =~= Multiset::<u32>::empty());
        assert(spec_merge(embs, quals, ne, nq, replace).quals.to_multiset().add(
            Multiset::empty(),
        ) =~= quals.to_multiset().add(nq.to_multiset()));
    } else {
        let e = ne[0];
        let q = nq[0];
        lemma_first_to_multiset(nq);
        assert(nq.skip(1).len() == ne.skip(1).len());
        if replace && quals.len() > 0 && q > quals[min_q_index(quals)] {
            let i = min_q_index(quals);
            lemma_min_q_index_props(quals);
            lemma_merge_conservation(embs.update(i, e), quals.update(i, q), ne.skip(1), nq.skip(1), true);
            lemma_update_to_multiset(quals, i, q);
            let m = spec_merge(embs, quals, ne, nq, replace);
            let rec_dropped = spec_merge_dropped(
                embs.update(i, e),
                quals.update(i, q),
                ne.skip(1),
                nq.skip(1),
                true,
            );
            assert(quals.to_multiset().contains(quals[i])) by {
                assert(quals.contains(quals[i]));
            }
            let rec = spec_merge(embs.update(i, e), quals.update(i, q), ne.skip(1), nq.skip(1), true);
            assert(m.quals == rec.quals);
            assert forall|x: u32|
                m.quals.to_multiset().add(rec_dropped.insert(quals[i])).count(x)
                    == quals.to_multiset().add(nq.to_multiset()).count(x) by {
                assert(rec.quals.to_multiset().add(rec_dropped).count(x) == quals.update(
                    i,
                    q,
                ).to_multiset().add(nq.skip(1).to_multiset()).count(x));
            }
            assert(m.quals.to_multiset().add(rec_dropped.insert(quals[i])) =~= quals.to_multiset().add(
                nq.to_multiset(),
            ));
        } else {
            lemma_merge_conservation(embs.push(e), quals.push(q), ne.skip(1), nq.skip(1), replace);
            assert(quals.push(q).to_multiset() =~= quals.to_multiset().insert(q));
            assert(spec_merge(embs, quals, ne, nq, replace).quals.to_multiset().add(
                spec_merge_dropped(embs, quals, ne, nq, replace),
            ) =~= quals.to_multiset().add(nq.to_multiset()));
        }
    }
}

/// A merge only ever discards strictly weaker material: every dropped
/// quality lies strictly below some quality that is retained.
pub proof fn lemma_merge_drops_only_weaker(
    embs: Seq<Seq<u32>>,
    quals: Seq<u32>,
    ne: Seq<Seq<u32>>,
    nq: Seq<u32>,
)
    requires
        quals.len() == embs.len(),
        nq.len() == ne.len(),
    ensures
        forall|d: u32|
            spec_merge_dropped(embs, quals, ne, nq, true).count(d) > 0 ==> exists|j: int|
                0 <= j < spec_merge(embs, quals, ne, nq, true).quals.len() && spec_merge(
                    embs,
                    quals,
                    ne,
                    nq,
                    true,
                ).quals[j] > d,
    decreases ne.len(),
{
    broadcast use vstd::seq_lib::group_to_multiset_ensures;
    broadcast use vstd::multiset::group_multiset_axioms;

    if ne.len() == 0 {
    } else {
        let e = ne[0];
        let q = nq[0];
        let m = spec_merge(embs, quals, ne, nq, true);
        if quals.len() > 0 && q > quals[min_q_index(quals)] {
            let i = min_q_index(quals);
            lemma_min_q_index_props(quals);
            let quals2 = quals.update(i, q);
            let embs2 = embs.update(i, e);
            lemma_merge_drops_only_weaker(embs2, quals2, ne.skip(1), nq.skip(1));
            lemma_merge_conservation(embs2, quals2, ne.skip(1), nq.skip(1), true);
            let rec = spec_merge(embs2, quals2, ne.skip(1), nq.skip(1), true);
            let rec_dropped = spec_merge_dropped(embs2, quals2, ne.skip(1), nq.skip(1), true);
            assert(m.quals == rec.quals);
            assert forall|d: u32|
                spec_merge_dropped(embs, quals, ne, nq, true).count(d) > 0 implies exists|j: int|
                0 <= j < m.quals.len() && m.quals[j] > d by {
                if rec_dropped.count(d) > 0 {
                    // Dropped later in the merge: covered by the tail.
                } else {
                    // The slot dropped now: its replacement is stronger,
                    // and either survives or was itself replaced by
                    // something stronger still.
                    assert(d == quals[i]);
                    assert(q > d);
                    assert(quals2.to_multiset().contains(q)) by {
                        assert(quals2[i] == q);
                        assert(quals2.contains(q));
                    }
                    assert(rec.quals.to_multiset().add(rec_dropped) == quals2.to_multiset().add(
                        nq.skip(1).to_multiset(),
                    ));
                    assert(rec.quals.to_multiset().add(rec_dropped).count(q)
                        == rec.quals.to_multiset().count(q) + rec_dropped.count(q));
                    assert(quals2.to_multiset().add(nq.skip(1).to_multiset()).count(q)
                        == quals2.to_multiset().count(q) + nq.skip(1).to_multiset().count(q));
                    assert(rec.quals.to_multiset().count(q) + rec_dropped.count(q)
                        == quals2.to_multiset().count(q) + nq.skip(1).to_multiset().count(q));
                    if rec.quals.to_multiset().count(q) > 0 {
                        assert(rec.quals.contains(q));
                        let j = choose|j: int| 0 <= j < rec.quals.len() && rec.quals[j] == q;
                        assert(m.quals[j] > d);
                    } else {
                        assert(rec_dropped.count(q) > 0);
                        let j = choose|j: int|
                            0 <= j < rec.quals.len() && rec.quals[j] > q;
                        assert(m.quals[j] > d);
                    }
                }
            }
        } else {
            lemma_merge_drops_only_weaker(embs.push(e), quals.push(q), ne.skip(1), nq.skip(1));
            assert(spec_merge_dropped(embs, quals, ne, nq, true) == spec_merge_dropped(
                embs.push(e),
                quals.push(q),
                ne.skip(1),
                nq.skip(1),
                true,
            ));
            assert(m.quals == spec_merge(embs.push(e), quals.push(q), ne.skip(1), nq.skip(1), true).quals);
            assert forall|d: u32|
                spec_merge_dropped(embs, quals, ne, nq, true).count(d) > 0 implies exists|j: int|
                0 <= j < m.quals.len() && m.quals[j] > d by {
                assert(spec_merge_dropped(
                    embs.push(e),
                    quals.push(q),
                    ne.skip(1),
                    nq.skip(1),
                    true,
                ).count(d) > 0);
            }
        }
    }
}

/// Merging one sample with replacement on keeps exactly the strongest
/// qualities: what is dropped from the combined pool is one minimum of it.
pub proof fn lemma_merge_single_top(embs: Seq<Seq<u32>>, quals: Seq<u32>, e: Seq<u32>, q: u32)
    requires
        quals.len() == embs.len(),
        quals.len() >= 1,
    ensures
        ({
            let m = spec_merge(embs, quals, seq![e], seq![q], true);
            let combined = quals.push(q);
            &&& (m.replaced == 1 ==> m.quals.to_multiset() == combined.to_multiset().remove(
                quals[min_q_index(quals)],
            ))
            &&& (m.replaced == 1 ==> forall|j: int|
                0 <= j < m.quals.len() ==> #[trigger] m.quals[j] >= quals[min_q_index(quals)])
            &&& (m.replaced == 0 ==> m.quals == combined)
            &&& (m.replaced == 1 <==> q > quals[min_q_index(quals)])
        }),
{
    broadcast use vstd::seq_lib::group_to_multiset_ensures;

    reveal_with_fuel(spec_merge, 3);
    let m = spec_merge(embs, quals, seq![e], seq![q], true);
    let combined = quals.push(q);
    let i = min_q_index(quals);
    lemma_min_q_index_props(quals);
    assert(seq![e][0] == e);
    assert(seq![q][0] == q);
    assert(seq![e].skip(1) =~= Seq::<Seq<u32>>::empty());
    assert(seq![q].skip(1) =~= Seq::<u32>::empty());
    if q > quals[i] {
        assert(m.quals == quals.update(i, q));
        assert(m.replaced == 1);
        // The updated sequence, with its new element removed, matches the
        // original with its weakest element removed.
        let u = quals.update(i, q);
        assert(u.remove(i) =~= quals.remove(i));
        assert(u.remove(i).to_multiset() == u.to_multiset().remove(u[i]));
        assert(quals.remove(i).to_multiset() == quals.to_multiset().remove(quals[i]));
        assert(u[i] == q);
        assert(u.to_multiset().remove(q) == quals.to_multiset().remove(quals[i]));
        assert(u.to_multiset().contains(q)) by {
            assert(u[i] == q);
            assert(u.contains(q));
        }
        assert(u.to_multiset() =~= quals.to_multiset().remove(quals[i]).insert(q)) by {
            assert(u.to_multiset().remove(q).insert(q) =~= u.to_multiset());
        }
        assert(combined.to_multiset() == quals.to_multiset().insert(q));
        assert(combined.to_multiset().contains(quals[i])) by {
            assert(quals.contains(quals[i]));
            assert(quals.to_multiset().contains(quals[i]));
        }
        assert(quals.to_multiset().remove(quals[i]).insert(q) =~= quals.to_multiset().insert(
            q,
        ).remove(quals[i]));
        assert(forall|j: int| 0 <= j < u.len() ==> #[trigger] u[j] >= quals[i]);
    } else {
        assert(m.quals == quals.push(q));
        assert(m.replaced == 0);
    }
}

// ---------------------------------------------------------------------------
// The store: directory layout and the in-memory merge entry point
// ---------------------------------------------------------------------------

/// Knows where records and enrollment snapshots live. Reading and writing
/// the files is left to the caller; this type owns the path arithmetic and
/// the merge.
pub struct UserStore {
    pub data_dir: String,
    pub enrollment_images_dir: String,
}

impl UserStore {
    /// A store rooted at the two given directories.
    pub fn from_dirs(data_dir: String, enrollment_images_dir: String) -> (s: UserStore)
        ensures
            s.data_dir@ == data_dir@,
            s.enrollment_images_dir@ == enrollment_images_dir@,
    {
        UserStore { data_dir, enrollment_images_dir }
    }

    /// Path of the record file of one user.
    pub fn user_file_path(&self, username: &str) -> (r: String)
        ensures
            r@ == self.data_dir@ + "/"@ + username@ + ".bincode"@,
    {
        let mut r = self.data_dir.clone();
        r.append("/");
        r.append(username);
        r.append(".bincode");
        proof {
            assert(r@ =~= self.data_dir@ + "/"@ + username@ + ".bincode"@);
        }
        r
    }

    /// Directory holding one user's enrollment snapshots.
    pub fn get_enrollment_images_dir(&self, username: &str) -> (r: String)
        ensures
            r@ == self.enrollment_images_dir@ + "/"@ + username@,
    {
        let mut r = self.enrollment_images_dir.clone();
        r.append("/");
        r.append(username);
        proof {
            assert(r@ =~= self.enrollment_images_dir@ + "/"@ + username@);
        }
        r
    }

    /// Merges freshly captured samples into a record and reports how many
    /// were added and how many replaced a weaker slot. The averaged
    /// embedding is cleared: it must be recomputed from the merged set.
    pub fn merge_user_data(
        &self,
        existing: &mut UserData,
        new_embeddings: Vec<Vec<u32>>,
        new_qualities: Vec<u32>,
        replace_weak: bool,
    ) -> (counts: (usize, usize))
        requires
            user_data_wf(old(existing)@),
            new_embeddings@.len() == new_qualities@.len(),
            forall|i: int|
                0 <= i < new_embeddings.deep_view().len()
                    ==> #[trigger] new_embeddings.deep_view()[i].len() == old(
                    existing,
                )@.embeddings[0].len(),
        ensures
            user_data_wf(final(existing)@),
            final(existing)@.version == old(existing)@.version,
            final(existing)@.username == old(existing)@.username,
            final(existing)@.averaged_embedding is None,
            counts.0 == final(existing)@.embeddings.len() - old(existing)@.embeddings.len(),
            match old(existing)@.embedding_qualities {
                Some(q0) => {
                    let m = spec_merge(
                        old(existing)@.embeddings,
                        q0,
                        new_embeddings.deep_view(),
                        new_qualities@,
                        replace_weak,
                    );
                    &&& final(existing)@.embeddings == m.embs
                    &&& final(existing)@.embedding_qualities == Some(m.quals)
                    &&& counts.1 == m.replaced
                },
                None => {
                    &&& final(existing)@.embeddings == old(existing)@.embeddings
                        + new_embeddings.deep_view()
                    &&& final(existing)@.embedding_qualities is None
                    &&& counts.1 == 0
                },
            },
    {
        let ghost dim = old(existing)@.embeddings[0].len();
        let ghost orig = old(existing)@;
        let ghost ne_v = new_embeddings.deep_view();
        let ghost nq_v = new_qualities@;
        proof {
            assert(ne_v.len() == new_embeddings@.len());
        }
        let initial_count = existing.embeddings.len();
        existing.averaged_embedding = None;

        let mut embs: Vec<Vec<u32>> = Vec::new();
        core::mem::swap(&mut embs, &mut existing.embeddings);
        proof {
            assert(embs.deep_view() == orig.embeddings);
        }
        let quals_opt = existing.embedding_qualities.take();

        match quals_opt {
            Some(mut quals) => {
                let ghost target = spec_merge(orig.embeddings, quals@, ne_v, nq_v, replace_weak);
                proof {
                    assert(quals.deep_view() =~= quals@);
                    assert(orig.embedding_qualities == Some(quals@));
                    lemma_merge_props(orig.embeddings, quals@, ne_v, nq_v, replace_weak, dim);
                }
                let mut replaced: usize = 0;
                let mut pending = new_embeddings;
                let mut pending_q = new_qualities;
                let total_new = pending.len();
                let ghost mut k: int = 0;
                proof {
                    assert(ne_v.skip(0) =~= ne_v);
                    assert(nq_v.skip(0) =~= nq_v);
                }
                while pending.len() > 0
                    invariant
                        0 <= k <= ne_v.len(),
                        ne_v.len() == total_new,
                        replaced <= k,
                        nq_v.len() == ne_v.len(),
                        pending.deep_view() == ne_v.skip(k),
                        pending_q@ == nq_v.skip(k),
                        quals@.len() == embs.deep_view().len(),
                        embs.deep_view().len() >= 1,
                        forall|i: int|
                            0 <= i < embs.deep_view().len() ==> #[trigger] embs.deep_view()[i].len()
                                == dim,
                        forall|i: int| 0 <= i < ne_v.len() ==> #[trigger] ne_v[i].len() == dim,
                        replaced + spec_merge(
                            embs.deep_view(),
                            quals@,
                            ne_v.skip(k),
                            nq_v.skip(k),
                            replace_weak,
                        ).replaced == target.replaced,
                        spec_merge(
                            embs.deep_view(),
                            quals@,
                            ne_v.skip(k),
                            nq_v.skip(k),
                            replace_weak,
                        ).embs == target.embs,
                        spec_merge(
                            embs.deep_view(),
                            quals@,
                            ne_v.skip(k),
                            nq_v.skip(k),
                            replace_weak,
                        ).quals == target.quals,
                    decreases pending.len(),
                {
                    let ghost prev_e = embs.deep_view();
                    let ghost prev_q = quals@;
                    let e = pending.remove(0);
                    let q = pending_q.remove(0);
                    proof {
                        assert(e@ == ne_v.skip(k)[0]);
                        assert(q == nq_v.skip(k)[0]);
                        assert(pending.deep_view() =~~= ne_v.skip(k).skip(1));
                        assert(pending_q@ =~= nq_v.skip(k).skip(1));
                        assert(ne_v.skip(k).skip(1) =~= ne_v.skip(k + 1));
                        assert(nq_v.skip(k).skip(1) =~= nq_v.skip(k + 1));
                    }
                    let mi = weakest_index(&quals);
                    if replace_weak && q > quals[mi] {
                        embs.set(mi, e);
                        quals.set(mi, q);
                        replaced = replaced + 1;
                        proof {
                            assert(embs.deep_view() =~~= prev_e.update(mi as int, ne_v.skip(k)[0]));
                            assert(quals@ =~= prev_q.update(mi as int, nq_v.skip(k)[0]));
                        }
                    } else {
                        embs.push(e);
                        quals.push(q);
                        proof {
                            assert(embs.deep_view() =~~= prev_e.push(ne_v.skip(k)[0]));
                            assert(quals@ =~= prev_q.push(nq_v.skip(k)[0]));
                        }
                    }
                    proof {
                        k = k + 1;
                    }
                }
                proof {
                    assert(ne_v.skip(ne_v.len() as int) =~= Seq::<Seq<u32>>::empty());
                    assert(nq_v.skip(nq_v.len() as int) =~= Seq::<u32>::empty());
                    assert(k == ne_v.len());
                    assert(embs.deep_view() == target.embs);
                    assert(quals@ == target.quals);
                    assert(quals.deep_view() =~= quals@);
                }
                let ghost qv = quals@;
                existing.embeddings = embs;
                existing.embedding_qualities = Some(quals);
                let final_count = existing.embeddings.len();
                proof {
                    assert(existing@.embeddings == target.embs);
                    assert(existing@.embedding_qualities == Some(qv));
                    assert(user_data_wf(existing@));
                }
                (final_count - initial_count, replaced)
            },
            None => {
                let mut pending = new_embeddings;
                embs.append(&mut pending);
                proof {
                    assert(embs.deep_view() =~~= orig.embeddings + ne_v);
                }
                existing.embeddings = embs;
                existing.embedding_qualities = None;
                let final_count = existing.embeddings.len();
                proof {
                    assert(existing@.embeddings == orig.embeddings + ne_v);
                    assert forall|i: int| 0 <= i < existing@.embeddings.len()
                        implies #[trigger] existing@.embeddings[i].len() == dim by {
                        if i < orig.embeddings.len() {
                            assert(existing@.embeddings[i] == orig.embeddings[i]);
                        } else {
                            assert(existing@.embeddings[i] == ne_v[i - orig.embeddings.len()]);
                        }
                    }
                    assert(user_data_wf(existing@));
                }
                (final_count - initial_count, 0)
            },
        }
    }
}

/// Finds the first position of the smallest quality.
fn weakest_index(quals: &Vec<u32>) -> (r: usize)
    requires
        quals@.len() >= 1,
    ensures
        r as int == min_q_index(quals@),
        r < quals@.len(),
{
    let mut best: usize = 0;
    let mut j: usize = 1;
    proof {
        assert(quals@.take(1) =~= seq![quals@[0]]);
    }
    while j < quals.len()
        invariant
            1 <= j <= quals@.len(),
            best < j,
            best as int == min_q_index(quals@.take(j as int)),
        decreases quals@.len() - j,
    {
        proof {
            assert(quals@.take(j + 1).drop_last() =~= quals@.take(j as int));
            assert(quals@.take(j + 1)[j as int] == quals@[j as int]);
            assert(forall|i: int|
                0 <= i < j ==> #[trigger] quals@.take(j + 1)[i] == quals@.take(j as int)[i]);
        }
        if quals[j] < quals[best] {
            best = j;
        }
        j = j + 1;
    }
    proof {
        assert(quals@.take(quals@.len() as int) =~= quals@);
    }
    best
}

/// Sets the averaged embedding of a record; the caller computed it from the
/// record's embeddings.
pub fn set_averaged_embedding(d: &mut UserData, avg: Vec<u32>)
    requires
        user_data_wf(old(d)@),
        avg@.len() == old(d)@.embeddings[0].len(),
    ensures
        user_data_wf(final(d)@),
        final(d)@ == (UserDataV { averaged_embedding: Some(avg@), ..old(d)@ }),
{
    let ghost a = avg@;
    d.averaged_embedding = Some(avg);
    proof {
        assert(d@.averaged_embedding->Some_0 =~= a);
        assert(d@.averaged_embedding == Some(a));
    }
}

/// Lifts a record read from disk to the current storage version.
pub fn normalize_version(d: &mut UserData)
    ensures
        final(d)@ == (UserDataV {
            version: if old(d)@.version < STORAGE_VERSION {
                STORAGE_VERSION
            } else {
                old(d)@.version
            },
            ..old(d)@
        }),
{
    if d.version < STORAGE_VERSION {
        d.version = STORAGE_VERSION;
    }
}

} // verus!
