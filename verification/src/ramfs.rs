//! An in-memory file system loaded from a ustar archive.
use vstd::prelude::*;
use crate::shell::{eq, push_bytes};

verus! {

/// Size of a file-name field.
pub const NAME_LEN: usize = 100;
/// Size of a tar block.
pub const BLOCK: usize = 512;
/// Offset and length of the size field of a tar header.
pub const SIZE_FIELD: usize = 124;
pub const SIZE_FIELD_LEN: usize = 12;

/// A file: a NUL-padded name and the contents.
pub struct File {
    pub name: [u8; 100],
    pub data: Vec<u8>,
}

/// Index of the first NUL at or after `i`, or the length when there is none.
pub open spec fn nul_at(raw: Seq<u8>, i: int) -> int
    decreases raw.len() - i,
{
    if i < 0 || i >= raw.len() {
        raw.len() as int
    } else if raw[i] == 0 {
        i
    } else {
        nul_at(raw, i + 1)
    }
}

/// The name that a NUL-padded field holds: the bytes before the first NUL.
pub open spec fn name_of(raw: Seq<u8>) -> Seq<u8> {
    raw.take(nul_at(raw, 0))
}

proof fn lemma_nul_at_bounds(raw: Seq<u8>, i: int)
    requires
        0 <= i <= raw.len(),
    ensures
        i <= nul_at(raw, i) <= raw.len(),
        nul_at(raw, i) < raw.len() ==> raw[nul_at(raw, i)] == 0,
        forall|j: int| i <= j < nul_at(raw, i) ==> raw[j] != 0,
    decreases raw.len() - i,
{
    if i < raw.len() && raw[i] != 0 {
        lemma_nul_at_bounds(raw, i + 1);
    }
}

/// Length of the name in a NUL-padded field.
pub fn name_len(raw: &[u8]) -> (r: usize)
    ensures
        r == nul_at(raw@, 0),
        r <= raw@.len(),
{
    let mut i: usize = 0;
    while i < raw.len() && raw[i] != 0
        invariant
            i <= raw@.len(),
            nul_at(raw@, 0) == nul_at(raw@, i as int),
        decreases raw@.len() - i,
    {
        i += 1;
    }
    proof {
        lemma_nul_at_bounds(raw@, 0);
    }
    i
}

/// The name of the file in `raw` is `name`.
pub fn name_matches(raw: &[u8], name: &[u8]) -> (r: bool)
    ensures
        r == (name_of(raw@) == name@),
{
    let len = name_len(raw);
    let r = eq(&raw[0..len], name);
    assert(raw@.subrange(0, len as int) =~= name_of(raw@));
    r
}

/// A file as the file system sees it: its name and its contents.
pub open spec fn file_view(f: File) -> (Seq<u8>, Seq<u8>) {
    (name_of(f.name@), f.data@)
}

/// The files of the system, in the order they were added.
pub struct Ramfs {
    files: Vec<File>,
}

impl View for Ramfs {
    type V = Seq<(Seq<u8>, Seq<u8>)>;

    closed spec fn view(&self) -> Seq<(Seq<u8>, Seq<u8>)> {
        self.files@.map_values(|f: File| file_view(f))
    }
}

/// Index of the first file from `i` on named `name`, or -1.
pub open spec fn find_from(fs: Seq<(Seq<u8>, Seq<u8>)>, name: Seq<u8>, i: int) -> int
    decreases fs.len() - i,
{
    if i < 0 || i >= fs.len() {
        -1
    } else if fs[i].0 == name {
        i
    } else {
        find_from(fs, name, i + 1)
    }
}

/// Index of the first file named `name`, or -1.
pub open spec fn find_index(fs: Seq<(Seq<u8>, Seq<u8>)>, name: Seq<u8>) -> int {
    find_from(fs, name, 0)
}

/// The contents of the first file named `name`.
pub open spec fn spec_find(fs: Seq<(Seq<u8>, Seq<u8>)>, name: Seq<u8>) -> Option<Seq<u8>> {
    let k = find_index(fs, name);
    if k >= 0 {
        Some(fs[k].1)
    } else {
        None
    }
}

/// The system after writing `data` to the first file named `name`, and
/// whether there was one.
pub open spec fn spec_write(fs: Seq<(Seq<u8>, Seq<u8>)>, name: Seq<u8>, data: Seq<u8>) -> (
    Seq<(Seq<u8>, Seq<u8>)>,
    bool,
) {
    let k = find_index(fs, name);
    if k >= 0 {
        (fs.update(k, (fs[k].0, data)), true)
    } else {
        (fs, false)
    }
}

/// The name field that `create` fills: at most 99 bytes of the name, the
/// rest NUL.
pub open spec fn created_field(name: Seq<u8>) -> Seq<u8> {
    let n = if name.len() < 99 { name.len() as int } else { 99 };
    name.take(n) + Seq::new((100 - n) as nat, |i: int| 0u8)
}

/// The system after `create(name)`, and whether the file was new.
pub open spec fn spec_create(fs: Seq<(Seq<u8>, Seq<u8>)>, name: Seq<u8>) -> (Seq<(Seq<u8>, Seq<u8>)>, bool) {
    if find_index(fs, name) >= 0 {
        (fs, false)
    } else {
        (fs.push((name_of(created_field(name)), Seq::empty())), true)
    }
}

proof fn lemma_find_from(fs: Seq<(Seq<u8>, Seq<u8>)>, name: Seq<u8>, i: int)
    requires
        0 <= i <= fs.len(),
    ensures
        find_from(fs, name, i) == -1 || i <= find_from(fs, name, i) < fs.len(),
        find_from(fs, name, i) >= 0 ==> fs[find_from(fs, name, i)].0 == name,
        forall|j: int| i <= j < fs.len() && (find_from(fs, name, i) == -1 || j < find_from(fs, name, i)) ==> fs[j].0
            != name,
    decreases fs.len() - i,
{
    if i < fs.len() && fs[i].0 != name {
        lemma_find_from(fs, name, i + 1);
    }
}

/// Files with the same names are found at the same place.
proof fn lemma_find_names(fs: Seq<(Seq<u8>, Seq<u8>)>, gs: Seq<(Seq<u8>, Seq<u8>)>, name: Seq<u8>, i: int)
    requires
        fs.len() == gs.len(),
        0 <= i <= fs.len(),
        forall|j: int| 0 <= j < fs.len() ==> #[trigger] fs[j].0 == gs[j].0,
    ensures
        find_from(fs, name, i) == find_from(gs, name, i),
    decreases fs.len() - i,
{
    if i < fs.len() {
        assert(fs[i].0 == gs[i].0);
        lemma_find_names(fs, gs, name, i + 1);
    }
}

impl Ramfs {
    /// An empty file system.
    pub fn new() -> (r: Self)
        ensures
            r@ == Seq::<(Seq<u8>, Seq<u8>)>::empty(),
    {
        let r = Ramfs { files: Vec::new() };
        assert(r@ =~= Seq::<(Seq<u8>, Seq<u8>)>::empty());
        r
    }

    /// Number of files.
    pub fn len(&self) -> (r: usize)
        ensures
            r == self@.len(),
    {
        self.files.len()
    }

    /// The name and size of every file, in order.
    pub fn list(&self) -> (r: Vec<(Vec<u8>, usize)>)
        ensures
            r@.len() == self@.len(),
            forall|i: int|
                0 <= i < r@.len() ==> (#[trigger] r@[i]).0@ == self@[i].0 && r@[i].1 == self@[i].1.len(),
    {
        let mut r: Vec<(Vec<u8>, usize)> = Vec::new();
        let mut i: usize = 0;
        while i < self.files.len()
            invariant
                i <= self.files@.len(),
                r@.len() == i,
                forall|j: int|
                    0 <= j < i ==> (#[trigger] r@[j]).0@ == self@[j].0 && r@[j].1 == self@[j].1.len(),
            decreases self.files@.len() - i,
        {
            let f = &self.files[i];
            let len = name_len(f.name.as_slice());
            let mut n: Vec<u8> = Vec::new();
            push_bytes(&mut n, &f.name.as_slice()[0..len]);
            proof {
                assert(n@ =~= name_of(f.name@));
            }
            r.push((n, f.data.len()));
            i += 1;
        }
        r
    }

    /// The position of the first file named `name`.
    fn position(&self, name: &[u8]) -> (r: Option<usize>)
        ensures
            match r {
                Some(k) => k as int == find_index(self@, name@),
                None => find_index(self@, name@) == -1,
            },
    {
        let mut i: usize = 0;
        while i < self.files.len()
            invariant
                i <= self.files@.len(),
                self@.len() == self.files@.len(),
                find_index(self@, name@) == find_from(self@, name@, i as int),
            decreases self.files@.len() - i,
        {
            if name_matches(self.files[i].name.as_slice(), name) {
                return Some(i);
            }
            i += 1;
        }
        None
    }

    /// The contents of the first file named `name`.
    pub fn find(&self, name: &[u8]) -> (r: Option<&[u8]>)
        ensures
            match r {
                Some(d) => spec_find(self@, name@) == Some(d@),
                None => spec_find(self@, name@) == None::<Seq<u8>>,
            },
    {
        proof {
            lemma_find_from(self@, name@, 0);
        }
        match self.position(name) {
            Some(k) => Some(self.files[k].data.as_slice()),
            None => None,
        }
    }

    /// Replace the contents of the first file named `name` with `data`;
    /// `false` when there is no such file.
    pub fn write(&mut self, name: &[u8], data: &[u8]) -> (r: bool)
        ensures
            (final(self)@, r) == spec_write(old(self)@, name@, data@),
    {
        match self.position(name) {
            Some(k) => {
                proof {
                    lemma_find_from(self@, name@, 0);
                }
                let mut d: Vec<u8> = Vec::new();
                push_bytes(&mut d, data);
                let ghost before = self.files@;
                let mut f = File { name: self.files[k].name, data: d };
                self.files.set(k, f);
                proof {
                    assert(d@ =~= data@);
                    assert(self@ =~= old(self)@.update(k as int, (old(self)@[k as int].0, data@)));
                }
                true
            },
            None => false,
        }
    }

    /// Add an empty file named `name` (cut to 99 bytes); `false`, and
    /// nothing added, when a file of that name exists.
    pub fn create(&mut self, name: &[u8]) -> (r: bool)
        ensures
            (final(self)@, r) == spec_create(old(self)@, name@),
    {
        if self.position(name).is_some() {
            return false;
        }
        let copy_len = if name.len() < 99 { name.len() } else { 99 };
        let mut raw = [0u8; 100];
        let mut i: usize = 0;
        while i < copy_len
            invariant
                copy_len <= 99,
                copy_len <= name@.len(),
                i <= copy_len,
                forall|j: int| 0 <= j < i ==> raw@[j] == name@[j],
                forall|j: int| i <= j < 100 ==> raw@[j] == 0,
            decreases copy_len - i,
        {
            raw[i] = name[i];
            i += 1;
        }
        proof {
            assert(raw@ =~= created_field(name@));
        }
        self.files.push(File { name: raw, data: Vec::new() });
        proof {
            assert(self@ =~= old(self)@.push((name_of(created_field(name@)), Seq::<u8>::empty())));
        }
        true
    }
}

// ---------------------------------------------------------------------------
// Laws
// ---------------------------------------------------------------------------

/// Law: after a write that found its file, reading that name gives what
/// was written.
pub proof fn law_read_after_write(fs: Seq<(Seq<u8>, Seq<u8>)>, name: Seq<u8>, data: Seq<u8>)
    requires
        spec_write(fs, name, data).1,
    ensures
        spec_find(spec_write(fs, name, data).0, name) == Some(data),
{
    lemma_find_from(fs, name, 0);
    let k = find_index(fs, name);
    let gs = spec_write(fs, name, data).0;
    assert forall|j: int| 0 <= j < fs.len() implies #[trigger] fs[j].0 == gs[j].0 by {}
    lemma_find_names(fs, gs, name, 0);
}

/// Law: a write changes what no other name reads.
pub proof fn law_write_leaves_others(fs: Seq<(Seq<u8>, Seq<u8>)>, name: Seq<u8>, data: Seq<u8>, other: Seq<u8>)
    requires
        other != name,
    ensures
        spec_find(spec_write(fs, name, data).0, other) == spec_find(fs, other),
{
    lemma_find_from(fs, name, 0);
    let gs = spec_write(fs, name, data).0;
    assert forall|j: int| 0 <= j < fs.len() implies #[trigger] fs[j].0 == gs[j].0 by {}
    lemma_find_names(fs, gs, other, 0);
    lemma_find_from(fs, other, 0);
    let k = find_index(fs, name);
    let m = find_index(fs, other);
    if m >= 0 && k >= 0 {
        assert(m != k);
    }
}

/// Law: `create` succeeds exactly when no file has the name; a name of at
/// most 99 bytes without a NUL then reads as an empty file.
pub proof fn law_create_then_find(fs: Seq<(Seq<u8>, Seq<u8>)>, name: Seq<u8>)
    ensures
        spec_create(fs, name).1 <==> spec_find(fs, name) is None,
        spec_create(fs, name).1 && name.len() <= 99 && (forall|i: int| 0 <= i < name.len() ==> name[i] != 0)
            ==> spec_find(spec_create(fs, name).0, name) == Some(Seq::<u8>::empty()),
{
    lemma_find_from(fs, name, 0);
    if spec_create(fs, name).1 && name.len() <= 99 && (forall|i: int| 0 <= i < name.len() ==> name[i] != 0) {
        let raw = created_field(name);
        lemma_nul_at_bounds(raw, 0);
        assert(nul_at(raw, 0) == name.len()) by {
            if nul_at(raw, 0) < name.len() {
                assert(raw[nul_at(raw, 0)] == name[nul_at(raw, 0)]);
            }
            assert(raw[name.len() as int] == 0);
        }
        assert(name_of(raw) =~= name);
        let gs = spec_create(fs, name).0;
        lemma_find_tail(fs, name, 0);
    }
}

/// A name that no file has is found at a file pushed at the end.
proof fn lemma_find_tail(fs: Seq<(Seq<u8>, Seq<u8>)>, name: Seq<u8>, i: int)
    requires
        0 <= i <= fs.len(),
        find_from(fs, name, i) == -1,
    ensures
        find_from(fs.push((name, Seq::<u8>::empty())), name, i) == fs.len(),
    decreases fs.len() - i,
{
    let gs = fs.push((name, Seq::<u8>::empty()));
    if i < fs.len() {
        assert(gs[i] == fs[i]);
        lemma_find_tail(fs, name, i + 1);
    }
}


// ---------------------------------------------------------------------------
// Loading a ustar archive
// ---------------------------------------------------------------------------

pub open spec fn is_octal(b: u8) -> bool {
    48 <= b <= 55
}

/// Index of the first byte from `i` on that is not an octal digit.
pub open spec fn octal_run(s: Seq<u8>, i: int) -> int
    decreases s.len() - i,
{
    if i < 0 || i >= s.len() {
        s.len() as int
    } else if !is_octal(s[i]) {
        i
    } else {
        octal_run(s, i + 1)
    }
}

/// The number that a string of octal digits spells.
pub open spec fn oct_value(t: Seq<u8>) -> nat
    decreases t.len(),
{
    if t.len() == 0 {
        0
    } else {
        oct_value(t.drop_last()) * 8 + (t.last() - 48) as nat
    }
}

/// The number in a tar numeric field: its leading octal digits; a NUL, a
/// space or any other byte ends it.
pub open spec fn spec_parse_octal(s: Seq<u8>) -> nat {
    oct_value(s.take(octal_run(s, 0)))
}

pub open spec fn pow8(n: nat) -> nat
    decreases n,
{
    if n == 0 {
        1
    } else {
        8 * pow8((n - 1) as nat)
    }
}

proof fn lemma_pow8_mono(i: nat, j: nat)
    requires
        i <= j,
    ensures
        pow8(i) <= pow8(j),
    decreases j,
{
    if i < j {
        lemma_pow8_mono(i, (j - 1) as nat);
    }
}

/// Read a tar numeric field of at most 12 bytes.
pub fn parse_octal(field: &[u8]) -> (r: u64)
    requires
        field@.len() <= SIZE_FIELD_LEN,
    ensures
        r == spec_parse_octal(field@),
{
    let mut v: u64 = 0;
    let mut i: usize = 0;
    while i < field.len() && field[i] >= 48 && field[i] <= 55
        invariant
            i <= field@.len(),
            field@.len() <= 12,
            octal_run(field@, 0) == octal_run(field@, i as int),
            v == oct_value(field@.take(i as int)),
            v < pow8(i as nat),
        decreases field@.len() - i,
    {
        proof {
            lemma_pow8_mono(i as nat, 11);
            assert(pow8(11) == 8589934592) by {
                reveal_with_fuel(pow8, 12);
            }
            assert(field@.take(i + 1).drop_last() =~= field@.take(i as int));
        }
        v = v * 8 + (field[i] - 48) as u64;
        i += 1;
    }
    v
}

/// Round a size up to whole blocks.
pub open spec fn round_block(size: nat) -> int {
    ((size + 511) / 512) as int * 512
}

/// The files of the archive `a` from the header at `off` on.  The walk
/// ends at a header whose name starts with NUL, at a header that does not
/// fit, or at a file whose contents run past the end of the archive.
pub open spec fn tar_files(a: Seq<u8>, off: int) -> Seq<(Seq<u8>, Seq<u8>)>
    decreases (if off < a.len() { a.len() - off } else { 0 }),
{
    if off < 0 || off + 512 > a.len() || a[off] == 0 {
        Seq::empty()
    } else {
        let name = name_of(a.subrange(off, off + 100));
        let size = spec_parse_octal(a.subrange(off + 124, off + 136));
        if off + 512 + size > a.len() {
            Seq::empty()
        } else {
            seq![(name, a.subrange(off + 512, off + 512 + size))] + tar_files(a, off + 512 + round_block(size))
        }
    }
}

impl Ramfs {
    /// Load the files of a ustar archive: for each header, the name, the
    /// size from its octal field, and that many bytes after the header;
    /// the next header follows the contents rounded up to a block.
    pub fn init(archive: &[u8]) -> (r: Self)
        ensures
            r@ == tar_files(archive@, 0),
    {
        let n = archive.len();
        let mut fs = Ramfs::new();
        let mut off: usize = 0;
        while off <= n && n - off >= BLOCK && archive[off] != 0
            invariant
                n == archive@.len(),
                fs@ + tar_files(archive@, off as int) == tar_files(archive@, 0),
            decreases n - off,
        {
            let hdr = &archive[off..off + BLOCK];
            let mut raw = [0u8; 100];
            let mut i: usize = 0;
            while i < NAME_LEN && hdr[i] != 0
                invariant
                    hdr@.len() == 512,
                    i <= 100,
                    nul_at(hdr@.subrange(0, 100), 0) == nul_at(hdr@.subrange(0, 100), i as int),
                    forall|j: int| 0 <= j < i ==> raw@[j] == hdr@[j] && raw@[j] != 0,
                    forall|j: int| i <= j < 100 ==> raw@[j] == 0,
                decreases 100 - i,
            {
                raw[i] = hdr[i];
                i += 1;
            }
            proof {
                let field = hdr@.subrange(0, 100);
                lemma_nul_at_bounds(field, 0);
                lemma_nul_at_bounds(raw@, 0);
                assert(nul_at(field, 0) == i);
                assert(nul_at(raw@, 0) == i) by {
                    if nul_at(raw@, 0) < i {
                        assert(raw@[nul_at(raw@, 0)] != 0);
                    }
                    if i < 100 {
                        assert(raw@[i as int] == 0);
                    }
                }
                assert(name_of(raw@) =~= name_of(field));
                assert(field =~= archive@.subrange(off as int, off + 100));
            }
            let size = parse_octal(&hdr[SIZE_FIELD..SIZE_FIELD + SIZE_FIELD_LEN]);
            proof {
                assert(hdr@.subrange(124, 136) =~= archive@.subrange(off + 124, off + 136));
            }
            if size > (n - off - BLOCK) as u64 {
                proof {
                    assert(fs@ + Seq::<(Seq<u8>, Seq<u8>)>::empty() =~= fs@);
                }
                return fs;
            }
            let start = off + BLOCK;
            let mut data: Vec<u8> = Vec::new();
            push_bytes(&mut data, &archive[start..start + size as usize]);
            let ghost before = fs@;
            fs.files.push(File { name: raw, data });
            proof {
                assert(fs@ =~= before.push((name_of(archive@.subrange(off as int, off + 100)), archive@.subrange(
                    off + 512,
                    off + 512 + size,
                ))));
            }
            let step: u64 = ((size + 511) / 512) * 512;
            if step > (n - off - BLOCK) as u64 {
                proof {
                    let next = off + 512 + round_block(size as nat);
                    assert(tar_files(archive@, next) =~= Seq::<(Seq<u8>, Seq<u8>)>::empty());
                    assert(fs@ + Seq::<(Seq<u8>, Seq<u8>)>::empty() =~= before + tar_files(archive@, off as int));
                }
                return fs;
            }
            proof {
                let next = off + 512 + round_block(size as nat);
                assert(fs@ + tar_files(archive@, next) =~= before + tar_files(archive@, off as int));
            }
            off = off + BLOCK + step as usize;
        }
        proof {
            assert(tar_files(archive@, off as int) =~= Seq::<(Seq<u8>, Seq<u8>)>::empty());
            assert(fs@ + Seq::<(Seq<u8>, Seq<u8>)>::empty() =~= fs@);
        }
        fs
    }
}

} // verus!
