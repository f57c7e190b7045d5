use vstd::prelude::*;

use crate::text::chars_of;

verus! {

/// One of the two file panes.
#[derive(Clone, Copy, Debug, PartialEq, Eq, Structural)]
pub enum Pane {
    Local,
    Remote,
}

/// Which way a file goes.
#[derive(Clone, Copy, Debug, PartialEq, Eq, Structural)]
pub enum TransferDirection {
    Upload,
    Download,
}

/// A file to copy from `source` to `destination`.
#[derive(Debug, Clone)]
pub struct TransferItem {
    pub source: String,
    pub destination: String,
    pub direction: TransferDirection,
}

/// One entry of a directory listing.
#[derive(Debug, Clone)]
pub struct FileInfo {
    pub name: String,
    pub path: String,
    pub is_dir: bool,
    pub size: u64,
    pub permissions: u32,
}

pub struct FileView {
    pub name: Seq<char>,
    pub path: Seq<char>,
    pub is_dir: bool,
    pub size: u64,
    pub permissions: u32,
}

impl View for FileInfo {
    type V = FileView;

    open spec fn view(&self) -> FileView {
        FileView {
            name: self.name@,
            path: self.path@,
            is_dir: self.is_dir,
            size: self.size,
            permissions: self.permissions,
        }
    }
}

pub struct TransferView {
    pub source: Seq<char>,
    pub destination: Seq<char>,
    pub direction: TransferDirection,
}

impl View for TransferItem {
    type V = TransferView;

    open spec fn view(&self) -> TransferView {
        TransferView {
            source: self.source@,
            destination: self.destination@,
            direction: self.direction,
        }
    }
}

pub open spec fn file_views(v: Seq<FileInfo>) -> Seq<FileView> {
    v.map_values(|f: FileInfo| f@)
}

pub open spec fn transfer_views(v: Seq<TransferItem>) -> Seq<TransferView> {
    v.map_values(|t: TransferItem| t@)
}

/// The other pane.
pub fn other_pane(p: Pane) -> (r: Pane)
    ensures
        p == Pane::Local ==> r == Pane::Remote,
        p == Pane::Remote ==> r == Pane::Local,
{
    match p {
        Pane::Local => Pane::Remote,
        Pane::Remote => Pane::Local,
    }
}

/// The cursor moved up one line, staying at the top line.
pub fn cursor_up(cursor: usize) -> (r: usize)
    ensures
        r == if cursor > 0 {
            cursor - 1
        } else {
            cursor as int
        },
{
    if cursor > 0 {
        cursor - 1
    } else {
        cursor
    }
}

/// The cursor moved down one line of a list of `len` lines, staying at the last line.
pub fn cursor_down(cursor: usize, len: usize) -> (r: usize)
    ensures
        r == if cursor + 1 < len {
            cursor + 1
        } else {
            cursor as int
        },
{
    if len > 0 && cursor < len - 1 {
        cursor + 1
    } else {
        cursor
    }
}

/// The selection `s` without the line `i`.
pub open spec fn without(s: Seq<usize>, i: usize) -> Seq<usize>
    decreases s.len(),
{
    if s.len() == 0 {
        s
    } else if s.last() == i {
        without(s.drop_last(), i)
    } else {
        without(s.drop_last(), i).push(s.last())
    }
}

/// The selection `s` with the line `i` toggled: removed where it is selected,
/// else added at the end.
pub open spec fn toggled(s: Seq<usize>, i: usize) -> Seq<usize> {
    if s.contains(i) {
        without(s, i)
    } else {
        s.push(i)
    }
}

/// Toggles whether line `i` is selected.
pub fn toggle_selected(selected: &mut Vec<usize>, i: usize)
    ensures
        final(selected)@ == toggled(old(selected)@, i),
{
    let mut found = false;
    let mut rest: Vec<usize> = Vec::new();
    let mut k: usize = 0;
    while k < selected.len()
        invariant
            k <= selected.len(),
            rest@ == without(selected@.take(k as int), i),
            found <==> selected@.take(k as int).contains(i),
        decreases selected.len() - k,
    {
        let x = selected[k];
        proof {
            let t = selected@.take(k + 1);
            assert(t.drop_last() == selected@.take(k as int));
            assert(t.last() == x);
            if selected@.take(k as int).contains(i) {
                let w = choose|w: int| 0 <= w < k && selected@.take(k as int)[w] == i;
                assert(t[w] == i);
            }
            if t.contains(i) && x != i {
                let w = choose|w: int| 0 <= w < k + 1 && t[w] == i;
                assert(selected@.take(k as int)[w] == i);
            }
        }
        if x == i {
            found = true;
        } else {
            rest.push(x);
        }
        k = k + 1;
    }
    assert(selected@.take(selected.len() as int) == selected@);
    if found {
        *selected = rest;
    } else {
        selected.push(i);
    }
}

/// `name` appended to the directory `dir` with a `/` between them, unless `dir`
/// is empty or already ends with one; a `name` that starts with `/` stands alone.
pub open spec fn join_path(dir: Seq<char>, name: Seq<char>) -> Seq<char> {
    if name.len() > 0 && name[0] == '/' {
        name
    } else if dir.len() == 0 || dir.last() == '/' {
        dir + name
    } else {
        dir.push('/') + name
    }
}

/// The path of `name` inside the directory `dir`.
pub fn join_dir(dir: &str, name: &str) -> (r: String)
    ensures
        r@ == join_path(dir@, name@),
{
    let d = chars_of(dir);
    let n = chars_of(name);
    if n.len() > 0 && n[0] == '/' {
        return name.to_owned();
    }
    let mut r = dir.to_owned();
    if d.len() > 0 && d[d.len() - 1] != '/' {
        r.push('/');
    }
    let mut k: usize = 0;
    let ghost base = r@;
    while k < n.len()
        invariant
            k <= n.len(),
            r@ == base + n@.take(k as int),
        decreases n.len() - k,
    {
        r.push(n[k]);
        k = k + 1;
        assert(n@.take(k as int) == n@.take(k - 1).push(n@[k - 1]));
    }
    assert(n@.take(n.len() as int) == n@);
    r
}

/// The transfers for the selected lines of `files`, in the order selected:
/// each file goes to `dest_dir` under its own name. A selected line past the end
/// of `files` is passed over.
pub open spec fn transfers_for(
    files: Seq<FileView>,
    selected: Seq<usize>,
    dest_dir: Seq<char>,
    direction: TransferDirection,
) -> Seq<TransferView>
    decreases selected.len(),
{
    if selected.len() == 0 {
        Seq::empty()
    } else {
        let prev = transfers_for(files, selected.drop_last(), dest_dir, direction);
        let i = selected.last();
        if i < files.len() {
            prev.push(
                TransferView {
                    source: files[i as int].path,
                    destination: join_path(dest_dir, files[i as int].name),
                    direction,
                },
            )
        } else {
            prev
        }
    }
}

/// Appends to `queue` the transfers for the selected lines of `files`.
pub fn queue_transfers(
    queue: &mut Vec<TransferItem>,
    files: &Vec<FileInfo>,
    selected: &Vec<usize>,
    dest_dir: &str,
    direction: TransferDirection,
)
    ensures
        transfer_views(final(queue)@) == transfer_views(old(queue)@) + transfers_for(
            file_views(files@),
            selected@,
            dest_dir@,
            direction,
        ),
{
    let ghost start = transfer_views(queue@);
    let mut k: usize = 0;
    while k < selected.len()
        invariant
            k <= selected.len(),
            transfer_views(queue@) == start + transfers_for(
                file_views(files@),
                selected@.take(k as int),
                dest_dir@,
                direction,
            ),
        decreases selected.len() - k,
    {
        let i = selected[k];
        proof {
            let t = selected@.take(k + 1);
            assert(t.drop_last() == selected@.take(k as int));
            assert(t.last() == i);
        }
        if i < files.len() {
            let f = &files[i];
            let item = TransferItem {
                source: f.path.clone(),
                destination: join_dir(dest_dir, f.name.as_str()),
                direction,
            };
            let ghost prev = queue@;
            queue.push(item);
            assert(transfer_views(queue@) =~= transfer_views(prev).push(item@));
        }
        k = k + 1;
    }
    assert(selected@.take(selected.len() as int) == selected@);
}

/// The transfers for both panes' selections: uploads of the selected local files
/// into the remote directory, then downloads of the selected remote files into
/// the local directory.
pub fn prepare_transfers(
    local_files: &Vec<FileInfo>,
    local_selected: &Vec<usize>,
    local_dir: &str,
    remote_files: &Vec<FileInfo>,
    remote_selected: &Vec<usize>,
    remote_dir: &str,
) -> (r: Vec<TransferItem>)
    ensures
        transfer_views(r@) == transfers_for(
            file_views(local_files@),
            local_selected@,
            remote_dir@,
            TransferDirection::Upload,
        ) + transfers_for(
            file_views(remote_files@),
            remote_selected@,
            local_dir@,
            TransferDirection::Download,
        ),
{
    let mut queue: Vec<TransferItem> = Vec::new();
    assert(transfer_views(queue@) =~= Seq::<TransferView>::empty());
    queue_transfers(&mut queue, local_files, local_selected, remote_dir, TransferDirection::Upload);
    queue_transfers(
        &mut queue,
        remote_files,
        remote_selected,
        local_dir,
        TransferDirection::Download,
    );
    queue
}

/// The lower-case form of a string, as `str::to_lowercase` gives it.
pub uninterp spec fn lower_of(s: Seq<char>) -> Seq<char>;

/// Relies on `str::to_lowercase`: its result depends on the characters alone.
#[verifier::external_body]
fn lowercase(s: &str) -> (r: String)
    ensures
        r@ == lower_of(s@),
        s@.len() == 0 ==> r@.len() == 0,
{
    s.to_lowercase()
}

/// Whether `needle` occurs in `hay` at `k`.
pub open spec fn occurs_at(hay: Seq<char>, needle: Seq<char>, k: int) -> bool {
    0 <= k && k + needle.len() <= hay.len() && hay.subrange(k, k + needle.len()) == needle
}

/// Whether `needle` occurs somewhere in `hay`.
pub open spec fn contains_seq(hay: Seq<char>, needle: Seq<char>) -> bool {
    exists|k: int| occurs_at(hay, needle, k)
}

/// Whether `needle` occurs in `hay` at `k`.
fn occurs_at_exec(hay: &Vec<char>, needle: &Vec<char>, k: usize) -> (r: bool)
    requires
        k + needle.len() <= hay.len(),
    ensures
        r == occurs_at(hay@, needle@, k as int),
{
    let mut j: usize = 0;
    while j < needle.len()
        invariant
            j <= needle.len(),
            k + needle.len() <= hay.len(),
            forall|m: int| 0 <= m < j ==> hay@[k + m] == needle@[m],
        decreases needle.len() - j,
    {
        if hay[k + j] != needle[j] {
            assert(hay@.subrange(k as int, k + needle.len())[j as int] != needle@[j as int]);
            return false;
        }
        j = j + 1;
    }
    assert(hay@.subrange(k as int, k + needle.len()) =~= needle@);
    true
}

/// Whether the text `hay` contains `needle`, both taken as they are (a search
/// that ignores case passes them folded).
pub fn text_contains(hay: &str, needle: &str) -> (r: bool)
    ensures
        r == contains_seq(hay@, needle@),
{
    let h = chars_of(hay);
    let n = chars_of(needle);
    if n.len() > h.len() {
        return false;
    }
    if n.len() == 0 {
        assert(hay@.subrange(0, 0) =~= needle@);
        assert(occurs_at(hay@, needle@, 0));
        return true;
    }
    let mut k: usize = 0;
    while k <= h.len() - n.len()
        invariant
            0 < n.len() <= h.len(),
            k <= h.len() - n.len() + 1,
            h@ == hay@,
            n@ == needle@,
            forall|m: int| 0 <= m < k ==> !occurs_at(hay@, needle@, m),
        decreases h.len() - n.len() + 1 - k,
    {
        if occurs_at_exec(&h, &n, k) {
            return true;
        }
        k = k + 1;
    }
    false
}

/// The files of `files` whose name, in lower case, contains `query` in lower
/// case, in their order.
pub open spec fn matching_files(files: Seq<FileView>, query: Seq<char>) -> Seq<FileView>
    decreases files.len(),
{
    if files.len() == 0 {
        Seq::empty()
    } else {
        let prev = matching_files(files.drop_last(), query);
        if contains_seq(lower_of(files.last().name), lower_of(query)) {
            prev.push(files.last())
        } else {
            prev
        }
    }
}

/// A copy of `f`.
pub fn copy_file(f: &FileInfo) -> (r: FileInfo)
    ensures
        r@ == f@,
{
    FileInfo {
        name: f.name.clone(),
        path: f.path.clone(),
        is_dir: f.is_dir,
        size: f.size,
        permissions: f.permissions,
    }
}

/// The files whose name contains `query`, ignoring case.
pub fn filter_by_name(files: &Vec<FileInfo>, query: &str) -> (r: Vec<FileInfo>)
    ensures
        file_views(r@) == matching_files(file_views(files@), query@),
{
    let q = lowercase(query);
    let mut r: Vec<FileInfo> = Vec::new();
    let mut k: usize = 0;
    while k < files.len()
        invariant
            k <= files.len(),
            q@ == lower_of(query@),
            file_views(r@) == matching_files(file_views(files@).take(k as int), query@),
        decreases files.len() - k,
    {
        let f = &files[k];
        proof {
            let t = file_views(files@).take(k + 1);
            assert(t.drop_last() =~= file_views(files@).take(k as int));
            assert(t.last() == f@);
        }
        let name = lowercase(f.name.as_str());
        if text_contains(name.as_str(), q.as_str()) {
            let c = copy_file(f);
            let ghost prev = r@;
            r.push(c);
            assert(file_views(r@) =~= file_views(prev).push(c@));
        }
        k = k + 1;
    }
    assert(file_views(files@).take(files.len() as int) =~= file_views(files@));
    r
}

/// Where an entry goes in a listing: the parent entry `..` first, then
/// directories, then files.
pub open spec fn rank(f: FileView) -> int {
    if f.name == seq!['.', '.'] {
        0
    } else if f.is_dir {
        1
    } else {
        2
    }
}

/// Whether `a` comes no later than `b` in code point order.
pub open spec fn name_le(a: Seq<char>, b: Seq<char>) -> bool
    decreases a.len(),
{
    if a.len() == 0 {
        true
    } else if b.len() == 0 {
        false
    } else if a[0] != b[0] {
        a[0] < b[0]
    } else {
        name_le(a.drop_first(), b.drop_first())
    }
}

/// Whether `a` may stand before `b` in a listing: by rank, then by name.
pub open spec fn listed_le(a: FileView, b: FileView) -> bool {
    rank(a) < rank(b) || (rank(a) == rank(b) && name_le(a.name, b.name))
}

pub open spec fn listing_sorted(s: Seq<FileView>) -> bool {
    forall|i: int, j: int| 0 <= i < j < s.len() ==> listed_le(#[trigger] s[i], #[trigger] s[j])
}

proof fn lemma_name_le_total(a: Seq<char>, b: Seq<char>)
    ensures
        name_le(a, b) || name_le(b, a),
    decreases a.len(),
{
    if a.len() > 0 && b.len() > 0 && a[0] == b[0] {
        lemma_name_le_total(a.drop_first(), b.drop_first());
    }
}

proof fn lemma_name_le_trans(a: Seq<char>, b: Seq<char>, c: Seq<char>)
    requires
        name_le(a, b),
        name_le(b, c),
    ensures
        name_le(a, c),
    decreases a.len(),
{
    if a.len() > 0 && b.len() > 0 && c.len() > 0 && a[0] == b[0] && b[0] == c[0] {
        lemma_name_le_trans(a.drop_first(), b.drop_first(), c.drop_first());
    }
}

proof fn lemma_listed_le_trans(a: FileView, b: FileView, c: FileView)
    requires
        listed_le(a, b),
        listed_le(b, c),
    ensures
        listed_le(a, c),
{
    if rank(a) == rank(b) && rank(b) == rank(c) {
        lemma_name_le_trans(a.name, b.name, c.name);
    }
}

/// Whether `a` comes no later than `b` in code point order.
fn name_le_exec(a: &Vec<char>, b: &Vec<char>) -> (r: bool)
    ensures
        r == name_le(a@, b@),
{
    let mut i: usize = 0;
    assert(a@.subrange(0, a.len() as int) =~= a@);
    assert(b@.subrange(0, b.len() as int) =~= b@);
    while i < a.len() && i < b.len() && a[i] == b[i]
        invariant
            i <= a.len(),
            i <= b.len(),
            forall|m: int| 0 <= m < i ==> a@[m] == b@[m],
            name_le(a@, b@) == name_le(a@.subrange(i as int, a.len() as int), b@.subrange(i as int, b.len() as int)),
        decreases a.len() - i,
    {
        proof {
            let sa = a@.subrange(i as int, a.len() as int);
            let sb = b@.subrange(i as int, b.len() as int);
            assert(sa.drop_first() =~= a@.subrange(i + 1, a.len() as int));
            assert(sb.drop_first() =~= b@.subrange(i + 1, b.len() as int));
        }
        i = i + 1;
    }
    let ghost sa = a@.subrange(i as int, a.len() as int);
    let ghost sb = b@.subrange(i as int, b.len() as int);
    if i == a.len() {
        true
    } else if i == b.len() {
        false
    } else {
        assert(sa[0] == a@[i as int] && sb[0] == b@[i as int]);
        a[i] < b[i]
    }
}

/// Whether `f` ranks as the parent entry, a directory, or a file.
fn rank_exec(f: &FileInfo) -> (r: u8)
    ensures
        r == rank(f@),
{
    let n = chars_of(f.name.as_str());
    if n.len() == 2 && n[0] == '.' && n[1] == '.' {
        assert(n@ =~= seq!['.', '.']);
        0
    } else {
        assert(n@ != seq!['.', '.'] ) by {
            if n@ == seq!['.', '.'] {
                assert(n@.len() == 2 && n@[0] == '.' && n@[1] == '.');
            }
        }
        if f.is_dir {
            1
        } else {
            2
        }
    }
}

/// Whether `a` may stand before `b` in a listing.
fn listed_le_exec(a: &FileInfo, b: &FileInfo) -> (r: bool)
    ensures
        r == listed_le(a@, b@),
{
    let ra = rank_exec(a);
    let rb = rank_exec(b);
    if ra != rb {
        ra < rb
    } else {
        name_le_exec(&chars_of(a.name.as_str()), &chars_of(b.name.as_str()))
    }
}

/// The listing `files` in listing order: the parent entry `..` first, then
/// directories, then files, each group by name. The result holds the same
/// entries as `files`.
pub fn sort_listing(files: Vec<FileInfo>) -> (r: Vec<FileInfo>)
    ensures
        listing_sorted(file_views(r@)),
        file_views(r@).to_multiset() == file_views(files@).to_multiset(),
{
    let mut out: Vec<FileInfo> = Vec::new();
    let mut k: usize = 0;
    assert(file_views(out@) =~= file_views(files@).take(0));
    while k < files.len()
        invariant
            k <= files.len(),
            listing_sorted(file_views(out@)),
            file_views(out@).to_multiset() == file_views(files@).take(k as int).to_multiset(),
        decreases files.len() - k,
    {
        let x = &files[k];
        let ghost outv = file_views(out@);
        // The first entry that `x` must stand before, past those it may follow.
        let mut pos: usize = 0;
        while pos < out.len() && listed_le_exec(&out[pos], x)
            invariant
                pos <= out.len(),
                outv == file_views(out@),
                forall|m: int| 0 <= m < pos ==> listed_le(#[trigger] outv[m], x@),
            decreases out.len() - pos,
        {
            pos = pos + 1;
        }
        let c = copy_file(x);
        proof {
            if pos < out.len() {
                assert(!listed_le(outv[pos as int], x@));
                if rank(outv[pos as int]) == rank(x@) {
                    lemma_name_le_total(outv[pos as int].name, x@.name);
                }
                assert(listed_le(x@, outv[pos as int]));
                assert forall|m: int| pos <= m < outv.len() implies listed_le(x@, #[trigger] outv[m]) by {
                    if m > pos {
                        lemma_listed_le_trans(x@, outv[pos as int], outv[m]);
                    }
                }
            }
        }
        out.insert(pos, c);
        proof {
            let nv = file_views(out@);
            assert(nv =~= outv.insert(pos as int, x@));
            assert forall|i: int, j: int| 0 <= i < j < nv.len() implies listed_le(
                #[trigger] nv[i],
                #[trigger] nv[j],
            ) by {
                if j < pos {
                    assert(nv[i] == outv[i] && nv[j] == outv[j]);
                } else if j == pos {
                    assert(nv[i] == outv[i]);
                } else if i < pos {
                    assert(nv[i] == outv[i] && nv[j] == outv[j - 1]);
                    lemma_listed_le_trans(outv[i], x@, outv[j - 1]);
                } else if i == pos {
                    assert(nv[j] == outv[j - 1]);
                } else {
                    assert(nv[i] == outv[i - 1] && nv[j] == outv[j - 1]);
                }
            }
            let t = file_views(files@).take(k + 1);
            let prev = file_views(files@).take(k as int);
            assert(t =~= prev.push(x@));
            vstd::seq_lib::to_multiset_insert(outv, pos as int, x@);
            vstd::seq_lib::to_multiset_build(prev, x@);
        }
        k = k + 1;
    }
    assert(file_views(files@).take(files.len() as int) =~= file_views(files@));
    out
}

} // verus!
