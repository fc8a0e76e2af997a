//! ZFS ZVOLs: dataset naming on a pool, and the bookkeeping of simulated ZVOLs.
use vstd::prelude::*;

use crate::strmap::{without_prefix, StrMap};
use crate::text::{
    chars_of, concat2, decimal, extend_str, lines, parse_unsigned, push_decimal,
    starts_with, string_of, string_views, words,
};

verus! {

/// Production ZFS ZVOL manager for a pool.
pub struct RealZvolManager {
    pool: String,
}

/// `pool/name`.
pub open spec fn spec_dataset(pool: Seq<char>, name: Seq<char>) -> Seq<char> {
    pool + seq!['/'] + name
}

impl RealZvolManager {
    /// The pool.
    pub closed spec fn pool(&self) -> Seq<char> {
        self.pool@
    }

    /// Create a new RealZvolManager for the specified pool.
    pub fn new(pool: String) -> (m: Self)
        ensures
            m.pool() == pool@,
    {
        RealZvolManager { pool }
    }

    /// The dataset of a ZVOL: `pool/name`.
    pub fn dataset_path(&self, name: &str) -> (p: String)
        ensures
            p@ == spec_dataset(self.pool(), name@),
    {
        let mut v = chars_of(self.pool.as_str());
        v.push('/');
        extend_str(&mut v, name);
        string_of(&v)
    }

    /// The block device of a ZVOL: `/dev/zvol/pool/name`.
    pub fn device_path(&self, name: &str) -> (p: String)
        ensures
            p@ == "/dev/zvol/"@ + spec_dataset(self.pool(), name@),
    {
        let d = self.dataset_path(name);
        concat2("/dev/zvol/", d.as_str())
    }

    /// The snapshot of a ZVOL: `pool/zvol@snapshot`.
    pub fn snapshot_path(&self, zvol_name: &str, snapshot_name: &str) -> (p: String)
        ensures
            p@ == spec_dataset(self.pool(), zvol_name@) + seq!['@'] + snapshot_name@,
    {
        let d = self.dataset_path(zvol_name);
        let mut v = chars_of(d.as_str());
        v.push('@');
        extend_str(&mut v, snapshot_name);
        string_of(&v)
    }

    /// The arguments of `zfs` that resize a ZVOL: `set volsize=<n> pool/zvol`.
    pub fn resize_args(&self, zvol_name: &str, new_size_bytes: u64) -> (args: Vec<String>)
        ensures
            string_views(args@) == seq![
                "set"@,
                "volsize="@ + decimal(new_size_bytes as nat),
                spec_dataset(self.pool(), zvol_name@),
            ],
    {
        let mut size = chars_of("volsize=");
        push_decimal(&mut size, new_size_bytes);
        let mut args: Vec<String> = Vec::new();
        args.push(String::from_str("set"));
        args.push(string_of(&size));
        args.push(self.dataset_path(zvol_name));
        proof {
            assert(string_views(args@) =~= seq![
                "set"@,
                "volsize="@ + decimal(new_size_bytes as nat),
                spec_dataset(self.pool(), zvol_name@),
            ]);
        }
        args
    }
}

/// The total memory that `/proc/meminfo` gives, in bytes: the first `MemTotal:` line
/// whose second field is a number of kB, times 1024 (wrapping at 2^64).
pub open spec fn spec_total_memory(ls: Seq<Seq<char>>) -> Option<u64>
    decreases ls.len(),
{
    if ls.len() == 0 {
        None
    } else {
        let l = ls[0];
        let ws = words(l);
        if starts_with(l, "MemTotal:"@) && ws.len() >= 2 && parse_unsigned(ws[1], u64::MAX as nat) is Ok {
            Some(((parse_unsigned(ws[1], u64::MAX as nat)->Ok_0 * 1024) % 0x1_0000_0000_0000_0000) as u64)
        } else {
            spec_total_memory(ls.drop_first())
        }
    }
}

/// Reads the total memory in bytes from the text of `/proc/meminfo`.
pub fn total_memory_from_meminfo(content: &str) -> (r: Option<u64>)
    ensures
        r == spec_total_memory(lines(content@)),
{
    let cv = chars_of(content);
    let ls = crate::text::chars_lines(&cv);
    let prefix = chars_of("MemTotal:");
    let mut i: usize = 0;
    proof {
        assert(lines(content@).skip(0) =~= lines(content@));
    }
    while i < ls.len()
        invariant
            i <= ls.len(),
            crate::text::views(ls@) == lines(content@),
            prefix@ == "MemTotal:"@,
            spec_total_memory(lines(content@)) == spec_total_memory(lines(content@).skip(i as int)),
        decreases ls.len() - i,
    {
        proof {
            let all = lines(content@);
            assert(crate::text::views(ls@)[i as int] == ls@[i as int]@);
            assert(all.skip(i as int)[0] == all[i as int]);
            assert(all.skip(i as int).drop_first() =~= all.skip(i + 1));
        }
        if crate::text::chars_starts_with(&ls[i], &prefix) {
            let ws = crate::text::chars_words(&ls[i]);
            proof {
                assert(crate::text::views(ws@).len() == ws@.len());
            }
            if ws.len() >= 2 {
                proof {
                    assert(crate::text::views(ws@)[1] == ws@[1]@);
                }
                match crate::text::parse_unsigned_chars(&ws[1], u64::MAX) {
                    Ok(kb) => {
                        return Some(kb.wrapping_mul(1024));
                    },
                    Err(_) => {},
                }
            }
        }
        i = i + 1;
    }
    None
}

/// The line of `/etc/modprobe.d/zfs.conf` that caps the ARC.
pub fn arc_conf_line(arc_max: u64) -> (s: String)
    ensures
        s@ == "options zfs zfs_arc_max="@ + decimal(arc_max as nat) + "\n"@,
{
    let mut v = chars_of("options zfs zfs_arc_max=");
    push_decimal(&mut v, arc_max);
    extend_str(&mut v, "\n");
    string_of(&v)
}

/// The bookkeeping of simulated ZVOLs: their sizes, and each snapshot's ZVOL.
pub struct MockZvolState {
    /// ZVOL name to size in bytes.
    pub zvols: StrMap<u64>,
    /// Snapshot key `zvol@snapshot` to ZVOL name.
    pub snapshots: StrMap<String>,
}

/// `zvol@snapshot`.
pub open spec fn snap_key(zvol: Seq<char>, snap: Seq<char>) -> Seq<char> {
    zvol + seq!['@'] + snap
}

impl MockZvolState {
    /// The tables are well formed.
    pub open spec fn wf(&self) -> bool {
        self.zvols.wf() && self.snapshots.wf()
    }

    /// The snapshots, with ZVOL names taken as text.
    pub open spec fn snaps(&self) -> Map<Seq<char>, Seq<char>> {
        self.snapshots@.map_values(|s: String| s@)
    }

    /// No ZVOLs and no snapshots.
    pub fn new() -> (s: Self)
        ensures
            s.wf(),
            s.zvols@ == Map::<Seq<char>, u64>::empty(),
            s.snaps() == Map::<Seq<char>, Seq<char>>::empty(),
    {
        let s = MockZvolState { zvols: StrMap::new(), snapshots: StrMap::new() };
        proof {
            assert(s.snaps() =~= Map::<Seq<char>, Seq<char>>::empty());
        }
        s
    }

    /// Records a ZVOL of the given size (replacing one of that name).
    pub fn create_zvol(&mut self, name: &str, size_bytes: u64)
        requires
            old(self).wf(),
        ensures
            final(self).wf(),
            final(self).zvols@ == old(self).zvols@.insert(name@, size_bytes),
            final(self).snaps() == old(self).snaps(),
    {
        self.zvols.insert(name.to_owned(), size_bytes);
    }

    /// Records a snapshot of an existing ZVOL.
    pub fn create_snapshot(&mut self, zvol_name: &str, snapshot_name: &str) -> (r: Result<(), String>)
        requires
            old(self).wf(),
        ensures
            final(self).wf(),
            final(self).zvols@ == old(self).zvols@,
            old(self).zvols@.contains_key(zvol_name@) ==> r is Ok && final(self).snaps() == old(
                self,
            ).snaps().insert(snap_key(zvol_name@, snapshot_name@), zvol_name@),
            !old(self).zvols@.contains_key(zvol_name@) ==> (r matches Err(e) && e@
                == "ZVOL not found: "@ + zvol_name@ && final(self).snaps() == old(self).snaps()),
    {
        if !self.zvols.contains_key(zvol_name) {
            return Err(concat2("ZVOL not found: ", zvol_name));
        }
        let mut k = chars_of(zvol_name);
        k.push('@');
        extend_str(&mut k, snapshot_name);
        let key = string_of(&k);
        proof {
            assert(key@ =~= snap_key(zvol_name@, snapshot_name@));
        }
        self.snapshots.insert(key, zvol_name.to_owned());
        proof {
            assert(self.snaps() =~= old(self).snaps().insert(snap_key(zvol_name@, snapshot_name@), zvol_name@));
        }
        Ok(())
    }

    /// The size a clone of a snapshot gets: that of the snapshot's ZVOL.
    pub fn clone_source_size(&self, snapshot_name: &str) -> (r: Result<u64, String>)
        requires
            self.wf(),
        ensures
            !self.snaps().contains_key(snapshot_name@) ==> (r matches Err(e) && e@
                == "Snapshot not found: "@ + snapshot_name@),
            self.snaps().contains_key(snapshot_name@) && !self.zvols@.contains_key(
                self.snaps()[snapshot_name@],
            ) ==> (r matches Err(e) && e@ == "Origin ZVOL not found: "@ + self.snaps()[snapshot_name@]),
            self.snaps().contains_key(snapshot_name@) && self.zvols@.contains_key(
                self.snaps()[snapshot_name@],
            ) ==> r == Ok::<u64, String>(self.zvols@[self.snaps()[snapshot_name@]]),
    {
        match self.snapshots.get(snapshot_name) {
            None => Err(concat2("Snapshot not found: ", snapshot_name)),
            Some(zvol) => match self.zvols.get(zvol.as_str()) {
                None => Err(concat2("Origin ZVOL not found: ", zvol.as_str())),
                Some(size) => Ok(*size),
            },
        }
    }

    /// Checks that a snapshot of a ZVOL exists, so the ZVOL can be rolled back to it.
    pub fn rollback_zvol(&self, zvol_name: &str, snapshot_name: &str) -> (r: Result<(), String>)
        requires
            self.wf(),
        ensures
            self.snaps().contains_key(snap_key(zvol_name@, snapshot_name@)) ==> r is Ok,
            !self.snaps().contains_key(snap_key(zvol_name@, snapshot_name@)) ==> (r matches Err(e)
                && e@ == "Snapshot not found: "@ + snap_key(zvol_name@, snapshot_name@)),
    {
        let mut k = chars_of(zvol_name);
        k.push('@');
        extend_str(&mut k, snapshot_name);
        let key = string_of(&k);
        proof {
            assert(key@ =~= snap_key(zvol_name@, snapshot_name@));
        }
        if !self.snapshots.contains_key(key.as_str()) {
            return Err(concat2("Snapshot not found: ", key.as_str()));
        }
        Ok(())
    }

    /// Checks that a ZVOL exists, so it can be resized.
    pub fn check_resize(&self, zvol_name: &str) -> (r: Result<(), String>)
        requires
            self.wf(),
        ensures
            self.zvols@.contains_key(zvol_name@) ==> r is Ok,
            !self.zvols@.contains_key(zvol_name@) ==> (r matches Err(e) && e@ == "ZVOL not found: "@
                + zvol_name@),
    {
        if !self.zvols.contains_key(zvol_name) {
            return Err(concat2("ZVOL not found: ", zvol_name));
        }
        Ok(())
    }

    /// Forgets a ZVOL and its snapshots.
    pub fn destroy_zvol(&mut self, name: &str)
        requires
            old(self).wf(),
        ensures
            final(self).wf(),
            final(self).zvols@ == old(self).zvols@.remove(name@),
            final(self).snapshots@ == without_prefix(old(self).snapshots@, name@ + seq!['@']),
    {
        self.zvols.remove(name);
        let mut p = chars_of(name);
        p.push('@');
        let prefix = string_of(&p);
        proof {
            assert(prefix@ =~= name@ + seq!['@']);
        }
        self.snapshots.retain_without_prefix(prefix.as_str());
    }
}

/// Destroying a ZVOL forgets every snapshot of it, and keeps the snapshots of others.
pub proof fn lemma_destroy_forgets_snapshots(
    snaps: Map<Seq<char>, String>,
    name: Seq<char>,
    snap: Seq<char>,
    other: Seq<char>,
)
    ensures
        !without_prefix(snaps, name + seq!['@']).contains_key(snap_key(name, snap)),
        snaps.contains_key(other) && !starts_with(other, name + seq!['@']) ==> without_prefix(
            snaps,
            name + seq!['@'],
        ).contains_key(other),
{
    assert(snap_key(name, snap).subrange(0, (name + seq!['@']).len() as int) =~= name + seq!['@']);
}

/// A ZVOL's dataset is its pool, `/`, then its name: the pool is what comes before the
/// first `/` (pools hold none) and the name is all that follows it.
pub proof fn lemma_dataset_parts(pool: Seq<char>, name: Seq<char>)
    requires
        crate::text::lacks(pool, '/'),
    ensures
        crate::text::split_on(spec_dataset(pool, name), '/')[0] == pool,
        spec_dataset(pool, name).skip(pool.len() as int + 1) == name,
        spec_dataset(pool, name)[pool.len() as int] == '/',
{
    crate::text::lemma_split_join(pool, '/', name);
    assert(spec_dataset(pool, name).skip(pool.len() as int + 1) =~= name);
}

} // verus!
