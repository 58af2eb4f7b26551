//! Loading a file: its clusters are read through the disk buffer, a buffer's
//! worth at a time, and each piece is copied to the destination after what
//! came before.
use vstd::prelude::*;

verus! {

/// One read of a file load: `len` bytes at disk position `disk_offset`,
/// copied to `dst_offset` bytes past the destination.
#[derive(Debug, Clone, Copy, PartialEq, Eq, Structural)]
pub struct FileRead {
    pub disk_offset: u64,
    pub len: u64,
    pub dst_offset: u64,
}

/// The reads of a cluster of `len` bytes at disk position `start` from
/// offset `off` within it on, through a buffer of `buf` bytes, the cluster
/// going to `dst` bytes past the destination.
pub open spec fn cluster_reads_of(start: int, len: int, buf: int, dst: int, off: int) -> Seq<FileRead>
    decreases len - off,
{
    if buf <= 0 || off >= len {
        Seq::empty()
    } else {
        let n = if buf < len - off {
            buf
        } else {
            len - off
        };
        seq![FileRead { disk_offset: (start + off) as u64, len: n as u64, dst_offset: (dst + off) as u64 }]
            + cluster_reads_of(start, len, buf, dst, off + n)
    }
}

/// Reading a cluster through the buffer reads it whole, in order, each piece
/// at most a buffer's worth and none empty: the pieces follow one another
/// from offset `off` to the cluster's end, each read from the disk where its
/// bytes lie and copied to the same place after `dst`.
pub proof fn lemma_cluster_reads(start: int, len: int, buf: int, dst: int, off: int)
    requires
        0 < buf <= u64::MAX,
        0 <= off <= len,
        0 <= start,
        start + len <= u64::MAX,
        0 <= dst,
        dst + len <= u64::MAX,
    ensures
        cluster_reads_of(start, len, buf, dst, off).len() == 0 <==> off == len,
        forall|k: int|
            0 <= k < cluster_reads_of(start, len, buf, dst, off).len() ==> {
                &&& 0 < (#[trigger] cluster_reads_of(start, len, buf, dst, off)[k]).len <= buf
                &&& cluster_reads_of(start, len, buf, dst, off)[k].disk_offset - start
                    == cluster_reads_of(start, len, buf, dst, off)[k].dst_offset - dst
                &&& dst + off <= cluster_reads_of(start, len, buf, dst, off)[k].dst_offset
                &&& cluster_reads_of(start, len, buf, dst, off)[k].dst_offset + cluster_reads_of(
                    start,
                    len,
                    buf,
                    dst,
                    off,
                )[k].len <= dst + len
            },
        cluster_reads_of(start, len, buf, dst, off).len() > 0 ==> cluster_reads_of(start, len, buf, dst, off)[0].dst_offset
            == dst + off && cluster_reads_of(start, len, buf, dst, off).last().dst_offset + cluster_reads_of(
            start,
            len,
            buf,
            dst,
            off,
        ).last().len == dst + len,
        forall|k: int|
            1 <= k < cluster_reads_of(start, len, buf, dst, off).len() ==> (#[trigger] cluster_reads_of(
                start,
                len,
                buf,
                dst,
                off,
            )[k]).dst_offset == cluster_reads_of(start, len, buf, dst, off)[k - 1].dst_offset + cluster_reads_of(
                start,
                len,
                buf,
                dst,
                off,
            )[k - 1].len,
    decreases len - off,
{
    if off < len {
        let n = if buf < len - off {
            buf
        } else {
            len - off
        };
        let first = FileRead { disk_offset: (start + off) as u64, len: n as u64, dst_offset: (dst + off) as u64 };
        let rest = cluster_reads_of(start, len, buf, dst, off + n);
        let all = cluster_reads_of(start, len, buf, dst, off);
        lemma_cluster_reads(start, len, buf, dst, off + n);
        assert(all == seq![first] + rest);
        assert(all[0] == first);
        assert forall|k: int| 1 <= k < all.len() implies #[trigger] all[k] == rest[k - 1] by {}
        assert forall|k: int| 0 <= k < all.len() implies {
            &&& 0 < (#[trigger] all[k]).len <= buf
            &&& all[k].disk_offset - start == all[k].dst_offset - dst
            &&& dst + off <= all[k].dst_offset
            &&& all[k].dst_offset + all[k].len <= dst + len
        } by {
            if k > 0 {
                assert(all[k] == rest[k - 1]);
            }
        }
        assert forall|k: int| 1 <= k < all.len() implies (#[trigger] all[k]).dst_offset == all[k - 1].dst_offset
            + all[k - 1].len by {
            assert(all[k] == rest[k - 1]);
            if k > 1 {
                assert(all[k - 1] == rest[k - 2]);
            } else {
                assert(rest.len() > 0);
                assert(rest[0].dst_offset == dst + off + n);
                assert(first.dst_offset == dst + off);
                assert(first.len == n);
            }
        }
        if rest.len() > 0 {
            assert(all.last() == rest.last());
        }
    }
}

/// The bytes of the clusters `clusters` (disk position, length) together.
pub open spec fn total_len(clusters: Seq<(u64, u32)>) -> int
    decreases clusters.len(),
{
    if clusters.len() == 0 {
        0
    } else {
        total_len(clusters.drop_last()) + clusters.last().1
    }
}

/// The reads of a file made of `clusters`, in order, each cluster copied
/// after the ones before it.
pub open spec fn file_reads_of(clusters: Seq<(u64, u32)>, buf: int) -> Seq<FileRead>
    decreases clusters.len(),
{
    if clusters.len() == 0 {
        Seq::empty()
    } else {
        file_reads_of(clusters.drop_last(), buf) + cluster_reads_of(
            clusters.last().0 as int,
            clusters.last().1 as int,
            buf,
            total_len(clusters.drop_last()),
            0,
        )
    }
}

proof fn lemma_total_len_monotone(clusters: Seq<(u64, u32)>, i: int)
    requires
        0 <= i <= clusters.len(),
    ensures
        total_len(clusters.take(i)) <= total_len(clusters),
        total_len(clusters.take(i)) >= 0,
    decreases clusters.len() - i,
{
    if i < clusters.len() {
        lemma_total_len_monotone(clusters, i + 1);
        assert(clusters.take(i + 1).drop_last() =~= clusters.take(i));
    } else {
        assert(clusters.take(i) =~= clusters);
    }
    lemma_total_len_nonneg(clusters.take(i));
}

proof fn lemma_total_len_nonneg(clusters: Seq<(u64, u32)>)
    ensures
        total_len(clusters) >= 0,
    decreases clusters.len(),
{
    if clusters.len() > 0 {
        lemma_total_len_nonneg(clusters.drop_last());
    }
}

/// The reads that loading a file made of `clusters` takes, through a disk
/// buffer of `buffer_size` bytes: each cluster from its start to its end, a
/// buffer's worth (or the rest) at a time, each piece landing right after
/// the previous one.
pub fn load_file(clusters: &Vec<(u64, u32)>, buffer_size: usize) -> (r: Vec<FileRead>)
    requires
        buffer_size > 0,
        forall|k: int| 0 <= k < clusters@.len() ==> clusters@[k].0 + clusters@[k].1 <= u64::MAX,
        total_len(clusters@) <= u64::MAX,
    ensures
        r@ == file_reads_of(clusters@, buffer_size as int),
{
    let mut out: Vec<FileRead> = Vec::new();
    let mut total: u64 = 0;
    let mut i: usize = 0;
    while i < clusters.len()
        invariant
            buffer_size > 0,
            i <= clusters@.len(),
            forall|k: int| 0 <= k < clusters@.len() ==> clusters@[k].0 + clusters@[k].1 <= u64::MAX,
            total_len(clusters@) <= u64::MAX,
            total == total_len(clusters@.take(i as int)),
            out@ == file_reads_of(clusters@.take(i as int), buffer_size as int),
        decreases clusters@.len() - i,
    {
        let (start, len32) = clusters[i];
        let len = len32 as u64;
        proof {
            lemma_total_len_monotone(clusters@, i + 1);
            assert(clusters@.take(i + 1).drop_last() =~= clusters@.take(i as int));
            assert(clusters@.take(i + 1).last() == clusters@[i as int]);
        }
        let ghost prefix = out@;
        let ghost full = prefix + cluster_reads_of(start as int, len as int, buffer_size as int, total as int, 0);
        let mut off: u64 = 0;
        while off < len
            invariant
                buffer_size > 0,
                off <= len,
                start + len <= u64::MAX,
                total + len <= u64::MAX,
                full == out@ + cluster_reads_of(start as int, len as int, buffer_size as int, total as int, off as int),
            decreases len - off,
        {
            let rest = len - off;
            let n: u64 = if (buffer_size as u64) < rest {
                buffer_size as u64
            } else {
                rest
            };
            out.push(FileRead { disk_offset: start + off, len: n, dst_offset: total + off });
            proof {
                assert(full == out@ + cluster_reads_of(
                    start as int,
                    len as int,
                    buffer_size as int,
                    total as int,
                    off + n,
                ));
            }
            off = off + n;
        }
        proof {
            assert(out@ =~= full);
        }
        total = total + len;
        i = i + 1;
    }
    proof {
        assert(clusters@.take(i as int) =~= clusters@);
    }
    out
}

} // verus!
