//! Which files of the wallpaper directory the picker offers, and in what order.
use vstd::prelude::*;
use crate::text::{
    chars_of, subvec, eq_str, lex_le, lex_le_exec, lemma_lex_total, lemma_lex_trans, lemma_lex_refl,
    ascii_lower, to_ascii_lower,
};

verus! {

broadcast use vstd::seq_lib::to_multiset_insert, vstd::seq_lib::to_multiset_build;

/// An entry of the wallpaper directory, as listing it gives it.
pub struct DirItem {
    /// The entry's path: the directory, `/`, and the entry's name.
    pub path: String,
    /// Whether the entry is a regular file.
    pub is_file: bool,
}

/// A wallpaper the picker offers.
pub struct WallpaperEntry {
    pub path: String,
    pub is_gif: bool,
}

/// The index of the last `c` in `s`, or -1.
pub open spec fn last_index_of(s: Seq<char>, c: char) -> int
    decreases s.len(),
{
    if s.len() == 0 {
        -1
    } else if s.last() == c {
        s.len() - 1
    } else {
        last_index_of(s.drop_last(), c)
    }
}

/// The last component of a path as a directory listing gives it: what
/// follows the last `/`.
pub open spec fn file_name(path: Seq<char>) -> Seq<char> {
    path.skip(last_index_of(path, '/') + 1)
}

/// The extension of a file name, as `Path::extension` gives it: what follows
/// the last `.`, provided the name does not start with that `.`, and none
/// for `..`.
pub open spec fn extension(name: Seq<char>) -> Option<Seq<char>> {
    let i = last_index_of(name, '.');
    if name == ".."@ || i <= 0 {
        None
    } else {
        Some(name.skip(i + 1))
    }
}

/// The image formats the picker shows (in lower case).
pub open spec fn supported(ext: Seq<char>) -> bool {
    ||| ext == "jpg"@
    ||| ext == "jpeg"@
    ||| ext == "png"@
    ||| ext == "gif"@
    ||| ext == "webp"@
    ||| ext == "bmp"@
}

/// The wallpaper a directory entry gives: a regular file whose extension,
/// in lower case, is a supported format; it animates when that is `gif`.
pub open spec fn entry_of(item: DirItem) -> Option<WallpaperEntry> {
    if !item.is_file {
        None
    } else {
        match extension(file_name(item.path@)) {
            Some(e) => if supported(ascii_lower(e)) {
                Some(WallpaperEntry { path: item.path, is_gif: ascii_lower(e) == "gif"@ })
            } else {
                None
            },
            None => None,
        }
    }
}

/// The wallpapers that `items` give, in listing order.
pub open spec fn wanted(items: Seq<DirItem>) -> Seq<WallpaperEntry>
    decreases items.len(),
{
    if items.len() == 0 {
        seq![]
    } else {
        match entry_of(items.last()) {
            Some(e) => wanted(items.drop_last()).push(e),
            None => wanted(items.drop_last()),
        }
    }
}

/// Wallpapers in the order of their file names.
pub open spec fn sorted_by_name(s: Seq<WallpaperEntry>) -> bool {
    forall|i: int, j: int|
        0 <= i < j < s.len() ==> lex_le(file_name(#[trigger] s[i].path@), file_name(#[trigger] s[j].path@))
}

/// The wallpapers of `s` whose file name is `k`, in their order in `s`.
pub open spec fn with_name(s: Seq<WallpaperEntry>, k: Seq<char>) -> Seq<WallpaperEntry>
    decreases s.len(),
{
    if s.len() == 0 {
        seq![]
    } else if file_name(s.last().path@) == k {
        with_name(s.drop_last(), k).push(s.last())
    } else {
        with_name(s.drop_last(), k)
    }
}

proof fn lemma_with_name_add(a: Seq<WallpaperEntry>, b: Seq<WallpaperEntry>, k: Seq<char>)
    ensures
        with_name(a + b, k) == with_name(a, k) + with_name(b, k),
    decreases b.len(),
{
    if b.len() == 0 {
        assert(a + b =~= a);
        assert(with_name(a, k) + with_name(b, k) =~= with_name(a, k));
    } else {
        assert((a + b).drop_last() =~= a + b.drop_last());
        assert((a + b).last() == b.last());
        lemma_with_name_add(a, b.drop_last(), k);
        if file_name(b.last().path@) == k {
            assert(with_name(a, k) + with_name(b.drop_last(), k).push(b.last()) =~= (with_name(a, k)
                + with_name(b.drop_last(), k)).push(b.last()));
        }
    }
}

proof fn lemma_with_name_none(s: Seq<WallpaperEntry>, k: Seq<char>)
    requires
        forall|q: int| 0 <= q < s.len() ==> file_name((#[trigger] s[q]).path@) != k,
    ensures
        with_name(s, k) == Seq::<WallpaperEntry>::empty(),
    decreases s.len(),
{
    if s.len() > 0 {
        assert(s.last() == s[s.len() - 1]);
        lemma_with_name_none(s.drop_last(), k);
    }
}

proof fn lemma_with_name_push(s: Seq<WallpaperEntry>, x: WallpaperEntry, k: Seq<char>)
    ensures
        with_name(s.push(x), k) == (if file_name(x.path@) == k {
            with_name(s, k).push(x)
        } else {
            with_name(s, k)
        }),
{
    assert(s.push(x).drop_last() =~= s);
    assert(s.push(x).last() == x);
}

proof fn lemma_last_index_bound(s: Seq<char>, c: char)
    ensures
        -1 <= last_index_of(s, c) < s.len(),
        last_index_of(s, c) >= 0 ==> s[last_index_of(s, c)] == c,
    decreases s.len(),
{
    if s.len() > 0 && s.last() != c {
        lemma_last_index_bound(s.drop_last(), c);
    }
}

fn last_index(v: &Vec<char>, c: char) -> (k: Option<usize>)
    ensures
        k is None <==> last_index_of(v@, c) == -1,
        k matches Some(i) ==> i == last_index_of(v@, c) && i < v.len(),
{
    let mut e: usize = v.len();
    proof {
        assert(v@.take(e as int) =~= v@);
    }
    while e > 0 && v[e - 1] != c
        invariant
            e <= v.len(),
            last_index_of(v@, c) == last_index_of(v@.take(e as int), c),
        decreases e,
    {
        proof {
            assert(v@.take(e as int).drop_last() =~= v@.take(e - 1));
        }
        e = e - 1;
    }
    proof {
        if e > 0 {
            assert(v@.take(e as int).last() == v@[e - 1]);
        } else {
            assert(v@.take(0).len() == 0);
        }
    }
    if e == 0 {
        None
    } else {
        Some(e - 1)
    }
}

fn name_of(path: &Vec<char>) -> (n: Vec<char>)
    ensures
        n@ == file_name(path@),
{
    proof {
        lemma_last_index_bound(path@, '/');
    }
    let start = match last_index(path, '/') {
        Some(k) => k + 1,
        None => 0,
    };
    let n = subvec(path, start, path.len());
    assert(n@ =~= path@.skip(last_index_of(path@, '/') + 1));
    n
}

fn entry(item: &DirItem) -> (r: (Option<WallpaperEntry>, Vec<char>))
    ensures
        r.0 == entry_of(*item),
        r.1@ == file_name(item.path@),
{
    let path = chars_of(item.path.as_str());
    let name = name_of(&path);
    if !item.is_file {
        return (None, name);
    }
    proof {
        lemma_last_index_bound(name@, '.');
    }
    let dot = match last_index(&name, '.') {
        Some(d) => d,
        None => 0,
    };
    if eq_str(&name, "..") || dot == 0 {
        return (None, name);
    }
    let ext = subvec(&name, dot + 1, name.len());
    assert(ext@ =~= name@.skip(dot + 1));
    let lower = to_ascii_lower(&ext);
    let ok = eq_str(&lower, "jpg") || eq_str(&lower, "jpeg") || eq_str(&lower, "png") || eq_str(
        &lower,
        "gif",
    ) || eq_str(&lower, "webp") || eq_str(&lower, "bmp");
    if ok {
        let is_gif = eq_str(&lower, "gif");
        (Some(WallpaperEntry { path: item.path.clone(), is_gif }), name)
    } else {
        (None, name)
    }
}

proof fn lemma_last_index_suffix(a: Seq<char>, b: Seq<char>, c: char)
    requires
        forall|q: int| 0 <= q < b.len() ==> b[q] != c,
    ensures
        last_index_of(a + b, c) == last_index_of(a, c),
    decreases b.len(),
{
    if b.len() == 0 {
        assert(a + b =~= a);
    } else {
        assert((a + b).drop_last() =~= a + b.drop_last());
        assert((a + b).last() == b[b.len() - 1]);
        lemma_last_index_suffix(a, b.drop_last(), c);
    }
}

proof fn lemma_last_index_at_end(a: Seq<char>, b: Seq<char>, c: char)
    requires
        forall|q: int| 0 <= q < b.len() ==> b[q] != c,
    ensures
        last_index_of(a.push(c) + b, c) == a.len(),
{
    lemma_last_index_suffix(a.push(c), b, c);
    assert(a.push(c).last() == c);
}

/// A file's name and extension as a listing gives them: for the path
/// `dir/stem.ext`, where neither `stem` nor `ext` holds a `/`, `ext` holds no
/// `.` and neither is empty, the file name is `stem.ext` and the extension
/// is `ext`.
pub proof fn lemma_name_and_extension(dir: Seq<char>, stem: Seq<char>, ext: Seq<char>)
    requires
        stem.len() > 0,
        ext.len() > 0,
        forall|q: int| 0 <= q < stem.len() ==> stem[q] != '/',
        forall|q: int| 0 <= q < ext.len() ==> ext[q] != '/' && ext[q] != '.',
    ensures
        file_name(dir + seq!['/'] + stem + seq!['.'] + ext) == stem + seq!['.'] + ext,
        extension(stem + seq!['.'] + ext) == Some(ext),
{
    let name = stem + seq!['.'] + ext;
    assert(forall|q: int| 0 <= q < name.len() ==> name[q] != '/') by {
        assert forall|q: int| 0 <= q < name.len() implies name[q] != '/' by {
            if q < stem.len() {
                assert(name[q] == stem[q]);
            } else if q == stem.len() {
                assert(name[q] == '.');
            } else {
                assert(name[q] == ext[q - stem.len() - 1]);
            }
        }
    }
    let path = dir + seq!['/'] + stem + seq!['.'] + ext;
    assert(path =~= dir.push('/') + name);
    lemma_last_index_at_end(dir, name, '/');
    assert(path.skip(dir.len() as int + 1) =~= name);
    assert(name =~= stem.push('.') + ext);
    lemma_last_index_at_end(stem, ext, '.');
    assert(name.skip(stem.len() as int + 1) =~= ext);
    assert(name.len() >= 3);
    reveal_strlit("..");
    assert(name != ".."@);
}

/// The formats offered: a regular file whose extension is `jpg`, `jpeg`,
/// `png`, `gif`, `webp` or `bmp`, in lower case or after lowering its ASCII
/// capitals, is a wallpaper, animated exactly when the extension is `gif`;
/// an entry that is not a regular file, or has no extension, is not one.
pub proof fn lemma_formats_offered(item: DirItem, e: Seq<char>)
    ensures
        item.is_file && extension(file_name(item.path@)) == Some(e) && (e == "jpg"@ || e == "jpeg"@
            || e == "png"@ || e == "gif"@ || e == "webp"@ || e == "bmp"@) ==> entry_of(item) == Some(
            WallpaperEntry { path: item.path, is_gif: e == "gif"@ },
        ),
        item.is_file && extension(file_name(item.path@)) == Some(e) && (ascii_lower(e) == "jpg"@
            || ascii_lower(e) == "jpeg"@ || ascii_lower(e) == "png"@ || ascii_lower(e) == "gif"@
            || ascii_lower(e) == "webp"@ || ascii_lower(e) == "bmp"@) ==> entry_of(item) == Some(
            WallpaperEntry { path: item.path, is_gif: ascii_lower(e) == "gif"@ },
        ),
        !item.is_file ==> entry_of(item) is None,
        extension(file_name(item.path@)) is None ==> entry_of(item) is None,
{
    reveal_strlit("jpg");
    reveal_strlit("jpeg");
    reveal_strlit("png");
    reveal_strlit("gif");
    reveal_strlit("webp");
    reveal_strlit("bmp");
    if e == "jpg"@ || e == "jpeg"@ || e == "png"@ || e == "gif"@ || e == "webp"@ || e == "bmp"@ {
        assert(ascii_lower(e) =~= e);
    }
}

/// Every wallpaper that an entry of the listing gives is among those selected.
pub proof fn lemma_entry_selected(items: Seq<DirItem>, i: int, w: WallpaperEntry)
    requires
        0 <= i < items.len(),
        entry_of(items[i]) == Some(w),
    ensures
        wanted(items).contains(w),
        wanted(items).to_multiset().count(w) > 0,
    decreases items.len(),
{
    if i < items.len() - 1 {
        lemma_entry_selected(items.drop_last(), i, w);
        let k = choose|k: int| 0 <= k < wanted(items.drop_last()).len() && wanted(items.drop_last())[k] == w;
        if entry_of(items.last()) is Some {
            assert(wanted(items)[k] == w);
        }
    } else {
        assert(items.last() == items[i]);
        assert(wanted(items).last() == w);
    }
    wanted(items).to_multiset_ensures();
}

/// The wallpapers among the directory's entries, ordered by file name;
/// entries of one file name keep the order of the listing.
pub fn select_wallpapers(items: &Vec<DirItem>) -> (r: Vec<WallpaperEntry>)
    ensures
        r@.to_multiset() == wanted(items@).to_multiset(),
        sorted_by_name(r@),
        forall|k: Seq<char>| #[trigger] with_name(r@, k) == with_name(wanted(items@), k),
{
    let mut out: Vec<WallpaperEntry> = Vec::new();
    let mut keys: Vec<Vec<char>> = Vec::new();
    let mut i: usize = 0;
    while i < items.len()
        invariant
            i <= items.len(),
            out@.to_multiset() == wanted(items@.take(i as int)).to_multiset(),
            keys@.len() == out@.len(),
            forall|j: int| 0 <= j < out@.len() ==> (#[trigger] keys@[j])@ == file_name(out@[j].path@),
            sorted_by_name(out@),
            forall|k: Seq<char>| #[trigger] with_name(out@, k) == with_name(wanted(items@.take(i as int)), k),
        decreases items.len() - i,
    {
        proof {
            assert(items@.take(i + 1).drop_last() =~= items@.take(i as int));
            assert(items@.take(i + 1).last() == items@[i as int]);
        }
        let (e, key) = entry(&items[i]);
        match e {
            Some(x) => {
                let mut p: usize = 0;
                while p < out.len() && lex_le_exec(&keys[p], &key)
                    invariant
                        p <= out@.len() == keys@.len(),
                        forall|q: int| 0 <= q < p ==> lex_le((#[trigger] keys@[q])@, key@),
                    decreases out.len() - p,
                {
                    p = p + 1;
                }
                let ghost old_out = out@;
                let ghost old_keys = keys@;
                proof {
                    assert(key@ == file_name(x.path@));
                    if p < out.len() {
                        lemma_lex_total(keys@[p as int]@, key@);
                    }
                }
                out.insert(p, x);
                keys.insert(p, key);
                proof {
                    let s = out@;
                    assert forall|q: int| 0 <= q < old_out.len() implies (#[trigger] old_keys[q])@
                        == file_name(old_out[q].path@) by {}
                    assert(s =~= old_out.insert(p as int, x));
                    assert(keys@ =~= old_keys.insert(p as int, key));
                    assert forall|j: int| 0 <= j < s.len() implies (#[trigger] keys@[j])@
                        == file_name(s[j].path@) by {
                        if j < p {
                            assert(keys@[j] == old_keys[j]);
                            assert(s[j] == old_out[j]);
                        } else if j > p {
                            assert(keys@[j] == old_keys[j - 1]);
                            assert(s[j] == old_out[j - 1]);
                        }
                    }
                    assert forall|a: int, b: int| 0 <= a < b < s.len() implies lex_le(
                        file_name(#[trigger] s[a].path@),
                        file_name(#[trigger] s[b].path@),
                    ) by {
                        let ka = keys@[a]@;
                        let kb = keys@[b]@;
                        assert(ka == file_name(s[a].path@));
                        assert(kb == file_name(s[b].path@));
                        if a < p && b < p {
                            assert(s[a] == old_out[a] && s[b] == old_out[b]);
                        } else if a < p && b == p {
                            assert(keys@[a] == old_keys[a]);
                        } else if a < p && b > p {
                            assert(keys@[a] == old_keys[a]);
                            assert(keys@[b] == old_keys[b - 1]);
                            let kp = old_keys[p as int]@;
                            assert(lex_le(kp, kb)) by {
                                if p < b - 1 {
                                    assert(lex_le(file_name(old_out[p as int].path@), file_name(
                                        old_out[b - 1].path@,
                                    )));
                                } else {
                                    lemma_lex_refl(kp);
                                }
                            }
                            lemma_lex_trans(ka, key@, kp);
                            lemma_lex_trans(ka, kp, kb);
                        } else if a == p {
                            assert(keys@[b] == old_keys[b - 1]);
                            assert(ka == key@);
                            let kp = old_keys[p as int]@;
                            assert(lex_le(kp, kb)) by {
                                if p < b - 1 {
                                    assert(lex_le(file_name(old_out[p as int].path@), file_name(
                                        old_out[b - 1].path@,
                                    )));
                                } else {
                                    lemma_lex_refl(kp);
                                }
                            }
                            lemma_lex_trans(key@, kp, kb);
                        } else {
                            assert(s[a] == old_out[a - 1] && s[b] == old_out[b - 1]);
                        }
                    }
                }
                proof {
                    let old_w = wanted(items@.take(i as int));
                    assert(wanted(items@.take(i + 1)) == old_w.push(x));
                    assert forall|k: Seq<char>| #[trigger] with_name(out@, k) == with_name(
                        wanted(items@.take(i + 1)),
                        k,
                    ) by {
                        let front = old_out.take(p as int);
                        let back = old_out.skip(p as int);
                        assert(old_out =~= front + back);
                        assert(out@ =~= (front + seq![x]) + back);
                        lemma_with_name_add(front, back, k);
                        lemma_with_name_add(front + seq![x], back, k);
                        lemma_with_name_add(front, seq![x], k);
                        assert(seq![x] =~= Seq::<WallpaperEntry>::empty().push(x));
                        lemma_with_name_push(Seq::<WallpaperEntry>::empty(), x, k);
                        lemma_with_name_push(old_w, x, k);
                        if file_name(x.path@) == k {
                            assert forall|q: int| 0 <= q < back.len() implies file_name(
                                (#[trigger] back[q]).path@,
                            ) != k by {
                                assert(back[q] == old_out[p + q]);
                                assert(old_keys[p + q]@ == file_name(old_out[p + q].path@));
                                assert(old_keys[p as int]@ == file_name(old_out[p as int].path@));
                                if q == 0 {
                                    lemma_lex_refl(key@);
                                } else {
                                    assert(lex_le(
                                        file_name(old_out[p as int].path@),
                                        file_name(old_out[p + q].path@),
                                    ));
                                }
                            }
                            lemma_with_name_none(back, k);
                            assert(with_name(front, k) + Seq::<WallpaperEntry>::empty() =~= with_name(front, k));
                        } else {
                            assert(with_name(front, k) + Seq::<WallpaperEntry>::empty() =~= with_name(front, k));
                        }
                    }
                }
            },
            None => {},
        }
        i = i + 1;
    }
    proof {
        assert(items@.take(items.len() as int) =~= items@);
    }
    out
}

} // verus!
