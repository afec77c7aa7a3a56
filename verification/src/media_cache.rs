//! Where the audio of renditions is kept on disk: each has a file with a readable name in the
//! directory of its source, and an index that says which.

use vstd::prelude::*;
use crate::exchange::{join_path, joined_path};
use crate::store::{by_rendition_of, rendition_key, rendition_key_of, MemStore, StoreView};
use crate::strmap::StrMap;
use crate::text::{
    alphanumeric, append_decimal, append_str, ascii_alphanumeric, chars_of, decimal, is_alphanumeric, last_char,
    lemma_decimal_value, part, rfind_char, same_text, split_once, split_once_of, str_views, string_of, strip_prefix,
    stripped, trim, trim_of,
};
use crate::types::{opt_text, track_name, SourceId};

verus! {

/// How long a readable name may be.
pub const NAME_LIMIT: usize = 120;

pub open spec fn plain_char(c: char) -> char {
    if ascii_alphanumeric(c) || c == '-' || c == '_' || c == '.' {
        c
    } else {
        '_'
    }
}

/// A text as the name of a directory or a file on any system.
pub open spec fn sanitized(s: Seq<char>) -> Seq<char> {
    s.map_values(|c: char| plain_char(c))
}

pub open spec fn readable_char(c: char) -> char {
    if alphanumeric(c) || c == ' ' || c == '-' || c == '_' || c == '.' || c == '\'' || c == '(' || c == ')' {
        c
    } else {
        '_'
    }
}

/// A name as the name of a file, still readable, and cut off where it is too long.
pub open spec fn readable_name(s: Seq<char>) -> Seq<char> {
    let t = trim_of(s.map_values(|c: char| readable_char(c)));
    if t.len() > NAME_LIMIT {
        t.take(NAME_LIMIT as int)
    } else {
        t
    }
}

pub fn sanitize(s: &str) -> (r: String)
    ensures
        r@ == sanitized(s@),
{
    let v = chars_of(s);
    let mut out: Vec<char> = Vec::new();
    let mut i: usize = 0;
    while i < v.len()
        invariant
            i <= v@.len(),
            out@.len() == i,
            forall|j: int| 0 <= j < i ==> out@[j] == plain_char(v@[j]),
        decreases v@.len() - i,
    {
        let c = v[i];
        let keep: bool = ('0' <= c && c <= '9') || ('a' <= c && c <= 'z') || ('A' <= c && c <= 'Z') || c == '-' || c == '_'
            || c == '.';
        out.push(if keep {
            c
        } else {
            '_'
        });
        i = i + 1;
    }
    assert(out@ =~= sanitized(v@));
    string_of(&out)
}

pub fn sanitize_display(s: &str) -> (r: String)
    ensures
        r@ == readable_name(s@),
{
    let v = chars_of(s);
    let mut out: Vec<char> = Vec::new();
    let mut i: usize = 0;
    while i < v.len()
        invariant
            i <= v@.len(),
            out@.len() == i,
            forall|j: int| 0 <= j < i ==> out@[j] == readable_char(v@[j]),
        decreases v@.len() - i,
    {
        let c = v[i];
        let keep: bool = is_alphanumeric(c) || c == ' ' || c == '-' || c == '_' || c == '.' || c == '\'' || c == '(' || c
            == ')';
        out.push(if keep {
            c
        } else {
            '_'
        });
        i = i + 1;
    }
    assert(out@ =~= v@.map_values(|c: char| readable_char(c)));
    let t = trim(&out);
    if t.len() > NAME_LIMIT {
        let u = part(&t, 0, NAME_LIMIT);
        assert(u@ =~= t@.take(NAME_LIMIT as int));
        string_of(&u)
    } else {
        string_of(&t)
    }
}

/// The extension that the first bytes of a file ask for: an Ogg stream, MPEG audio with or without
/// a tag, or an MP4 file.
pub open spec fn sniffed(b: Seq<u8>) -> Option<Seq<char>> {
    if b.len() >= 4 && b[0] == 0x4f && b[1] == 0x67 && b[2] == 0x67 && b[3] == 0x53 {
        Some("ogg"@)
    } else if b.len() >= 3 && b[0] == 0x49 && b[1] == 0x44 && b[2] == 0x33 {
        Some("mp3"@)
    } else if b.len() >= 2 && b[0] == 0xff && b[1] >= 0xe0 {
        Some("mp3"@)
    } else if b.len() >= 8 && b[4] == 0x66 && b[5] == 0x74 && b[6] == 0x79 && b[7] == 0x70 {
        Some("m4a"@)
    } else {
        None
    }
}

pub fn sniff_ext(b: &[u8]) -> (r: Option<String>)
    ensures
        opt_text(r) == sniffed(b@),
{
    let n: usize = b.len();
    if n >= 4 && b[0] == 0x4f && b[1] == 0x67 && b[2] == 0x67 && b[3] == 0x53 {
        return Some("ogg".to_owned());
    }
    if n >= 3 && b[0] == 0x49 && b[1] == 0x44 && b[2] == 0x33 {
        return Some("mp3".to_owned());
    }
    if n >= 2 && b[0] == 0xff && b[1] >= 0xe0 {
        return Some("mp3".to_owned());
    }
    if n >= 8 && b[4] == 0x66 && b[5] == 0x74 && b[6] == 0x79 && b[7] == 0x70 {
        return Some("m4a".to_owned());
    }
    None
}

pub open spec fn with_ext(s: Seq<char>, ext: Option<Seq<char>>) -> Seq<char> {
    match ext {
        Some(e) => s + "."@ + e,
        None => s,
    }
}

/// The name of a file; the number stands before the extension.
pub open spec fn numbered(base: Seq<char>, n: nat, ext: Option<Seq<char>>) -> Seq<char> {
    with_ext(base + " ("@ + decimal(n) + ")"@, ext)
}

/// Whether a name is the one that a file gets beside others: its own, or else the one with the
/// least number from 2 on that is not taken.
pub open spec fn free_name(taken: Set<Seq<char>>, base: Seq<char>, ext: Option<Seq<char>>, r: Seq<char>) -> bool {
    if !taken.contains(with_ext(base, ext)) {
        r == with_ext(base, ext)
    } else {
        exists|n: nat| #[trigger] first_free(taken, base, ext, n) && r == numbered(base, n, ext)
    }
}

pub open spec fn first_free(taken: Set<Seq<char>>, base: Seq<char>, ext: Option<Seq<char>>, n: nat) -> bool {
    &&& n >= 2
    &&& !taken.contains(numbered(base, n, ext))
    &&& forall|m: nat| 2 <= m < n ==> taken.contains(#[trigger] numbered(base, m, ext))
}

fn extended(s: Vec<char>, ext: &Option<String>) -> (r: String)
    ensures
        r@ == with_ext(s@, opt_text(*ext)),
{
    let mut v = s;
    if let Some(e) = ext {
        append_str(&mut v, ".");
        append_str(&mut v, e);
    }
    assert(v@ =~= with_ext(s@, opt_text(*ext)));
    string_of(&v)
}

proof fn lemma_numbered_distinct(base: Seq<char>, a: nat, b: nat, ext: Option<Seq<char>>)
    requires
        numbered(base, a, ext) == numbered(base, b, ext),
    ensures
        a == b,
{
    let x = base + " ("@ + decimal(a) + ")"@;
    let y = base + " ("@ + decimal(b) + ")"@;
    reveal_strlit(" (");
    reveal_strlit(")");
    reveal_strlit(".");
    let tail = match ext {
        Some(e) => "."@ + e,
        None => seq![],
    };
    assert(numbered(base, a, ext) =~= x + tail);
    assert(numbered(base, b, ext) =~= y + tail);
    assert(x.len() == y.len());
    let k = base.len() as int + 2;
    let s = numbered(base, a, ext);
    assert(s.take(x.len() as int) =~= x);
    assert(s.take(y.len() as int) =~= y);
    assert(x.subrange(k, x.len() - 1) =~= decimal(a));
    assert(y.subrange(k, y.len() - 1) =~= decimal(b));
    lemma_decimal_value(a);
    lemma_decimal_value(b);
}

/// The numbers below `n` whose names are taken are no more than what is taken.
proof fn lemma_taken(taken: Set<Seq<char>>, base: Seq<char>, ext: Option<Seq<char>>, n: nat)
    requires
        taken.finite(),
        n >= 2,
        forall|m: nat| 2 <= m < n ==> taken.contains(#[trigger] numbered(base, m, ext)),
    ensures
        n - 2 <= taken.len(),
    decreases n,
{
    if n > 2 {
        let last = numbered(base, (n - 1) as nat, ext);
        let rest = taken.remove(last);
        assert forall|m: nat| 2 <= m < n - 1 implies rest.contains(#[trigger] numbered(base, m, ext)) by {
            if numbered(base, m, ext) == last {
                lemma_numbered_distinct(base, m, (n - 1) as nat, ext);
            }
        }
        lemma_taken(rest, base, ext, (n - 1) as nat);
    }
}

/// A name for a file that none of the taken ones is.
pub fn unique_filename(taken: &StrMap<()>, base: &str, ext: &Option<String>) -> (r: String)
    requires
        taken@.dom().len() + 2 <= u64::MAX,
    ensures
        free_name(taken@.dom(), base@, opt_text(*ext), r@),
        !taken@.dom().contains(r@),
{
    let first = extended(chars_of(base), ext);
    if !taken.contains_key(&first) {
        return first;
    }
    proof {
        use_type_invariant(taken);
        taken.keys_are_the_domain();
        taken.keys().unique_seq_to_set();
        assert(taken@.dom() =~= taken.keys().to_set());
    }
    let count: usize = taken.len();
    let mut n: u64 = 2;
    loop
        invariant
            2 <= n <= count + 2,
            count == taken@.dom().len(),
            count + 2 <= u64::MAX,
            taken@.dom().finite(),
            taken@.dom().contains(with_ext(base@, opt_text(*ext))),
            forall|m: nat| 2 <= m < n ==> taken@.dom().contains(#[trigger] numbered(base@, m, opt_text(*ext))),
        decreases count + 2 - n,
    {
        let mut v = chars_of(base);
        append_str(&mut v, " (");
        append_decimal(&mut v, n);
        append_str(&mut v, ")");
        assert(v@ =~= base@ + " ("@ + decimal(n as nat) + ")"@);
        let name = extended(v, ext);
        assert(name@ == numbered(base@, n as nat, opt_text(*ext)));
        if !taken.contains_key(&name) {
            assert(first_free(taken@.dom(), base@, opt_text(*ext), n as nat));
            return name;
        }
        proof {
            assert forall|m: nat| 2 <= m < n + 1 implies taken@.dom().contains(
                #[trigger] numbered(base@, m, opt_text(*ext)),
            ) by {
                if m == n {
                }
            }
            lemma_taken(taken@.dom(), base@, opt_text(*ext), (n + 1) as nat);
        }
        n = n + 1;
    }
}


/// Where the audio of renditions is kept.
pub struct MediaCache {
    pub dir: String,
    /// The name of each file, by the key of its rendition.
    pub index: StrMap<String>,
}

/// The directory of a source.
pub open spec fn source_dir(dir: Seq<char>, source: Seq<char>) -> Seq<char> {
    joined_path(dir, sanitized(source))
}

/// The file of an entry.
pub open spec fn entry_path(dir: Seq<char>, source: Seq<char>, name: Seq<char>) -> Seq<char> {
    joined_path(source_dir(dir, source), name)
}

/// The name that a rendition is shown by: its track's, or else its address.
pub open spec fn shown_name(s: StoreView, source: Seq<char>, uri: Seq<char>) -> Seq<char> {
    match by_rendition_of(s, source, uri) {
        Some(t) => track_name(t),
        None => uri,
    }
}

/// What the name of a new file is made of.
pub open spec fn base_name(s: StoreView, source: Seq<char>, uri: Seq<char>) -> Seq<char> {
    let b = readable_name(shown_name(s, source, uri));
    if b.len() == 0 {
        sanitized(uri)
    } else {
        b
    }
}

/// Whether the file of an entry of the index is not there; a key that names no source is left
/// alone.
pub open spec fn orphaned(dir: Seq<char>, key: Seq<char>, name: Seq<char>, files: Set<Seq<char>>) -> bool {
    split_once_of(key, '\0') matches Some((source, _)) && !files.contains(entry_path(dir, source, name))
}

fn file_of(dir: &str, source: &str, name: &str) -> (r: String)
    ensures
        r@ == entry_path(dir@, source@, name@),
{
    join_path(&join_path(dir, &sanitize(source)), name)
}

impl MediaCache {
    /// The name of a rendition's file.
    pub fn filename(&self, source: &SourceId, uri: &str) -> (r: Option<String>)
        ensures
            match r {
                Some(n) => self.index@.dom().contains(rendition_key_of(source@, uri@)) && n
                    == self.index@[rendition_key_of(source@, uri@)],
                None => !self.index@.dom().contains(rendition_key_of(source@, uri@)),
            },
    {
        match self.index.get(&rendition_key(source.as_str(), uri)) {
            Some(n) => Some(n.clone()),
            None => None,
        }
    }

    /// The file of a rendition, if it is there. `files` are the files that are there.
    pub fn cached_path(&self, source: &SourceId, uri: &str, files: &StrMap<()>) -> (r: Option<String>)
        ensures
            opt_text(r) == ({
                let k = rendition_key_of(source@, uri@);
                if self.index@.dom().contains(k) && files@.dom().contains(
                    entry_path(self.dir@, source@, self.index@[k]@),
                ) {
                    Some(entry_path(self.dir@, source@, self.index@[k]@))
                } else {
                    None
                }
            }),
    {
        match self.filename(source, uri) {
            None => None,
            Some(n) => {
                let p = file_of(&self.dir, source.as_str(), &n);
                if files.contains_key(&p) {
                    Some(p)
                } else {
                    None
                }
            },
        }
    }

    /// Where a rendition is written. The first time it gets a name, which it keeps; `taken` are
    /// the names in the directory of its source.
    pub fn dest(&mut self, source: &SourceId, uri: &str, ext: &Option<String>, taken: &StrMap<()>, store: &MemStore) -> (r: String)
        requires
            taken@.dom().len() + 2 <= u64::MAX,
        ensures
            ({
                let k = rendition_key_of(source@, uri@);
                let name = final(self).index@[k];
                &&& final(self).dir == old(self).dir
                &&& final(self).index@.dom().contains(k)
                &&& final(self).index@ == old(self).index@.insert(k, name)
                &&& r@ == entry_path(old(self).dir@, source@, name@)
                &&& if old(self).index@.dom().contains(k) {
                    name == old(self).index@[k]
                } else {
                    free_name(taken@.dom(), base_name(store@, source@, uri@), opt_text(*ext), name@)
                }
            }),
    {
        let name = match self.filename(source, uri) {
            Some(n) => {
                assert(self.index@ =~= self.index@.insert(
                    rendition_key_of(source@, uri@),
                    self.index@[rendition_key_of(source@, uri@)],
                ));
                n
            },
            None => {
                let shown = match store.track_by_rendition(source, uri) {
                    Some(t) => t.display_name(),
                    None => uri.to_owned(),
                };
                let mut base = sanitize_display(&shown);
                if chars_of(&base).len() == 0 {
                    base = sanitize(uri);
                }
                let n = unique_filename(taken, &base, ext);
                self.index.insert(rendition_key(source.as_str(), uri), n.clone());
                n
            },
        };
        file_of(&self.dir, source.as_str(), &name)
    }

    /// The keys of the entries whose files are not there.
    pub fn orphans(&self, files: &StrMap<()>) -> (r: Vec<String>)
        ensures
            str_views(r@).no_duplicates(),
            forall|k: Seq<char>| #[trigger]
                str_views(r@).contains(k) <==> self.index@.dom().contains(k) && orphaned(
                    self.dir@,
                    k,
                    self.index@[k]@,
                    files@.dom(),
                ),
    {
        proof {
            use_type_invariant(&self.index);
            self.index.keys_are_the_domain();
        }
        let ghost keys = self.index.keys();
        let ghost vals = self.index.values();
        let mut out: Vec<String> = Vec::new();
        let n: usize = self.index.len();
        let mut i: usize = 0;
        assert(str_views(out@) =~= seq![]);
        while i < n
            invariant
                i <= n == keys.len(),
                keys == self.index.keys(),
                vals == self.index.values(),
                keys.len() == vals.len(),
                keys.no_duplicates(),
                str_views(out@).no_duplicates(),
                forall|k: Seq<char>| #[trigger]
                    str_views(out@).contains(k) <==> exists|j: int|
                        0 <= j < i && #[trigger] keys[j] == k && orphaned(self.dir@, k, vals[j]@, files@.dom()),
            decreases n - i,
        {
            let key = self.index.key_at(i);
            let name = self.index.value_at(i);
            let gone: bool = match split_once(&chars_of(key), '\0') {
                Some((source, _)) => !files.contains_key(&file_of(&self.dir, &string_of(&source), name)),
                None => false,
            };
            assert(gone == orphaned(self.dir@, keys[i as int], vals[i as int]@, files@.dom()));
            let ghost before = str_views(out@);
            if gone {
                out.push(key.clone());
                assert(str_views(out@) =~= before.push(keys[i as int]));
            }
            proof {
                assert forall|k: Seq<char>| #[trigger]
                    str_views(out@).contains(k) <==> exists|j: int|
                        0 <= j < i + 1 && #[trigger] keys[j] == k && orphaned(self.dir@, k, vals[j]@, files@.dom()) by {
                    if str_views(out@).contains(k) {
                        if before.contains(k) {
                            let j = choose|j: int|
                                0 <= j < i && #[trigger] keys[j] == k && orphaned(self.dir@, k, vals[j]@, files@.dom());
                            assert(keys[j] == k);
                        } else {
                            assert(keys[i as int] == k);
                        }
                    }
                    if exists|j: int|
                        0 <= j < i + 1 && #[trigger] keys[j] == k && orphaned(self.dir@, k, vals[j]@, files@.dom()) {
                        let j = choose|j: int|
                            0 <= j < i + 1 && #[trigger] keys[j] == k && orphaned(self.dir@, k, vals[j]@, files@.dom());
                        if j < i {
                            assert(before.contains(k));
                            let w = choose|w: int| 0 <= w < before.len() && before[w] == k;
                            assert(str_views(out@)[w] == k);
                        } else {
                            assert(str_views(out@)[before.len() as int] == k);
                        }
                    }
                }
                if gone {
                    assert(!before.contains(keys[i as int])) by {
                        if before.contains(keys[i as int]) {
                            let j = choose|j: int|
                                0 <= j < i && #[trigger] keys[j] == keys[i as int] && orphaned(
                                    self.dir@,
                                    keys[i as int],
                                    vals[j]@,
                                    files@.dom(),
                                );
                        }
                    }
                }
            }
            i = i + 1;
        }
        proof {
            assert forall|k: Seq<char>| #[trigger]
                str_views(out@).contains(k) <==> self.index@.dom().contains(k) && orphaned(
                    self.dir@,
                    k,
                    self.index@[k]@,
                    files@.dom(),
                ) by {
                if str_views(out@).contains(k) {
                    let j = choose|j: int|
                        0 <= j < n && #[trigger] keys[j] == k && orphaned(self.dir@, k, vals[j]@, files@.dom());
                    assert(keys.contains(k));
                    assert(self.index@[keys[j]] == vals[j]);
                }
                if self.index@.dom().contains(k) && orphaned(self.dir@, k, self.index@[k]@, files@.dom()) {
                    assert(keys.contains(k));
                    let j = choose|j: int| 0 <= j < keys.len() && keys[j] == k;
                    assert(self.index@[keys[j]] == vals[j]);
                }
            }
        }
        out
    }

    /// Drops entries of the index.
    pub fn forget(&mut self, keys: &Vec<String>)
        ensures
            final(self).dir == old(self).dir,
            final(self).index@ == old(self).index@.remove_keys(str_views(keys@).to_set()),
    {
        let ghost kv = str_views(keys@);
        let mut i: usize = 0;
        assert(self.index@.remove_keys(kv.take(0).to_set()) =~= self.index@);
        while i < keys.len()
            invariant
                i <= keys@.len(),
                kv == str_views(keys@),
                self.dir == old(self).dir,
                self.index@ == old(self).index@.remove_keys(kv.take(i as int).to_set()),
            decreases keys@.len() - i,
        {
            self.index.remove(&keys[i]);
            proof {
                assert(kv[i as int] == keys@[i as int]@);
                assert(kv.take(i + 1) =~= kv.take(i as int).push(kv[i as int]));
                assert forall|k: Seq<char>| kv.take(i + 1).contains(k) <==> kv.take(i as int).contains(k) || k
                    == kv[i as int] by {
                    if kv.take(i as int).contains(k) {
                        let j = choose|j: int| 0 <= j < i && kv.take(i as int)[j] == k;
                        assert(kv.take(i + 1)[j] == k);
                    }
                    if k == kv[i as int] {
                        assert(kv.take(i + 1)[i as int] == k);
                    }
                }
                assert(self.index@ =~= old(self).index@.remove_keys(kv.take(i + 1).to_set()));
            }
            i = i + 1;
        }
        assert(kv.take(i as int) =~= kv);
    }

    /// Drops the entries whose files are not there; says how many.
    pub fn prune_orphans(&mut self, files: &StrMap<()>) -> (dropped: usize)
        ensures
            final(self).dir == old(self).dir,
            forall|k: Seq<char>| #[trigger]
                final(self).index@.dom().contains(k) <==> old(self).index@.dom().contains(k) && !orphaned(
                    old(self).dir@,
                    k,
                    old(self).index@[k]@,
                    files@.dom(),
                ),
            forall|k: Seq<char>| #[trigger]
                final(self).index@.dom().contains(k) ==> final(self).index@[k] == old(self).index@[k],
            old(self).index@.dom().len() == final(self).index@.dom().len() + dropped,
    {
        let keys = self.orphans(files);
        let ghost kv = str_views(keys@);
        let n: usize = keys.len();
        proof {
            use_type_invariant(&self.index);
            self.index.keys_are_the_domain();
            self.index.keys().unique_seq_to_set();
            assert(self.index@.dom() =~= self.index.keys().to_set());
            kv.unique_seq_to_set();
        }
        self.forget(&keys);
        proof {
            let a = old(self).index@.dom();
            assert(kv.to_set().subset_of(a)) by {
                assert forall|k: Seq<char>| kv.to_set().contains(k) implies a.contains(k) by {
                    assert(kv.contains(k));
                }
            }
            assert(self.index@.dom() =~= a.difference(kv.to_set()));
            vstd::set_lib::lemma_len_difference(a, kv.to_set());
            assert(a =~= self.index@.dom() + kv.to_set());
            vstd::set_lib::lemma_set_disjoint_lens(self.index@.dom(), kv.to_set());
            assert forall|k: Seq<char>| #[trigger]
                self.index@.dom().contains(k) <==> old(self).index@.dom().contains(k) && !orphaned(
                    old(self).dir@,
                    k,
                    old(self).index@[k]@,
                    files@.dom(),
                ) by {
                assert(kv.contains(k) <==> kv.to_set().contains(k));
            }
        }
        n
    }
}


/// What taking another index over comes to.
pub struct MergeView {
    pub index: Map<Seq<char>, String>,
    pub inserted: nat,
    /// Of those, how many have no file.
    pub fileless: nat,
    pub skipped: nat,
}

/// The first `n` entries of another index are taken over; an entry that is there already stays.
pub open spec fn merged_index(m: Map<Seq<char>, String>, keys: Seq<Seq<char>>, vals: Seq<String>, dir: Seq<char>, files: Set<Seq<char>>, n: int) -> MergeView
    decreases n,
{
    if n <= 0 || n > keys.len() {
        MergeView { index: m, inserted: 0, fileless: 0, skipped: 0 }
    } else {
        let v = merged_index(m, keys, vals, dir, files, n - 1);
        let k = keys[n - 1];
        if v.index.dom().contains(k) {
            MergeView { skipped: v.skipped + 1, ..v }
        } else {
            MergeView {
                index: v.index.insert(k, vals[n - 1]),
                inserted: v.inserted + 1,
                fileless: v.fileless + (if orphaned(dir, k, vals[n - 1]@, files) {
                    1nat
                } else {
                    0
                }),
                ..v
            }
        }
    }
}

/// How many entries of another index were taken over, how many of those have no file, and how
/// many were there already.
#[derive(Clone, Copy, PartialEq, Eq, Structural, Debug)]
pub struct MergeCount {
    pub inserted: usize,
    pub fileless: usize,
    pub skipped: usize,
}

impl MediaCache {
    /// Takes another index over; entries that are there already stay.
    pub fn merge_index(&mut self, from: &StrMap<String>, files: &StrMap<()>) -> (r: MergeCount)
        ensures
            final(self).dir == old(self).dir,
            ({
                let v = merged_index(
                    old(self).index@,
                    from.keys(),
                    from.values(),
                    old(self).dir@,
                    files@.dom(),
                    from.keys().len() as int,
                );
                &&& final(self).index@ == v.index
                &&& r.inserted == v.inserted
                &&& r.fileless == v.fileless
                &&& r.skipped == v.skipped
            }),
    {
        let ghost keys = from.keys();
        let ghost vals = from.values();
        let ghost m = self.index@;
        let mut r = MergeCount { inserted: 0, fileless: 0, skipped: 0 };
        let n: usize = from.len();
        let mut i: usize = 0;
        while i < n
            invariant
                i <= n == keys.len(),
                keys == from.keys(),
                vals == from.values(),
                self.dir == old(self).dir,
                r.inserted <= i,
                r.fileless <= i,
                r.skipped <= i,
                ({
                    let v = merged_index(m, keys, vals, old(self).dir@, files@.dom(), i as int);
                    self.index@ == v.index && r.inserted == v.inserted && r.fileless == v.fileless && r.skipped
                        == v.skipped
                }),
            decreases n - i,
        {
            let key = from.key_at(i);
            let name = from.value_at(i);
            if self.index.contains_key(key) {
                r.skipped = r.skipped + 1;
            } else {
                self.index.insert(key.clone(), name.clone());
                r.inserted = r.inserted + 1;
                if let Some((source, _)) = split_once(&chars_of(key), '\0') {
                    if !files.contains_key(&file_of(&self.dir, &string_of(&source), name)) {
                        r.fileless = r.fileless + 1;
                    }
                }
            }
            i = i + 1;
        }
        r
    }
}

/// Taking an index over keeps every entry that was there, and every entry of the other index is
/// counted once.
pub proof fn merging_keeps_entries(m: Map<Seq<char>, String>, keys: Seq<Seq<char>>, vals: Seq<String>, dir: Seq<char>, files: Set<Seq<char>>, n: int)
    requires
        0 <= n <= keys.len(),
        keys.len() == vals.len(),
    ensures
        ({
            let v = merged_index(m, keys, vals, dir, files, n);
            &&& v.inserted + v.skipped == n
            &&& forall|k: Seq<char>| #[trigger] m.dom().contains(k) ==> v.index.dom().contains(k) && v.index[k] == m[k]
            &&& forall|i: int| 0 <= i < n ==> v.index.dom().contains(#[trigger] keys[i])
        }),
    decreases n,
{
    if n > 0 {
        merging_keeps_entries(m, keys, vals, dir, files, n - 1);
    }
}

/// Whether a file beside the index is another index of the same cache: it has the name of the
/// cache, then a separator, and the extension of an index.
pub open spec fn extra_index(name: Seq<char>, stem: Seq<char>, live: Seq<char>) -> bool {
    let cut = name.len() - ".redb"@.len();
    &&& name != live
    &&& cut >= 0 && name.skip(cut) == ".redb"@
    &&& stripped(name.take(cut), stem) matches Some(rest) && rest.len() > 0 && (rest[0] == '-' || rest[0] == '_' || rest[0]
        == '.' || rest[0] == ' ')
}

pub fn is_extra_index(name: &str, stem: &str, live: &str) -> (r: bool)
    ensures
        r == extra_index(name@, stem@, live@),
{
    if same_text(name, live) {
        return false;
    }
    let v = chars_of(name);
    let x = chars_of(".redb");
    let n: usize = v.len();
    let m: usize = x.len();
    proof {
        reveal_strlit(".redb");
    }
    if n < m {
        return false;
    }
    let tail = part(&v, n - m, n);
    assert(tail@ =~= v@.skip(n - m));
    if !crate::text::same_chars(&tail, &x) {
        return false;
    }
    let head = part(&v, 0, n - m);
    assert(head@ =~= v@.take(n - m));
    match strip_prefix(&head, stem) {
        Some(rest) => rest.len() > 0 && (rest[0] == '-' || rest[0] == '_' || rest[0] == '.' || rest[0] == ' '),
        None => false,
    }
}

/// A path without the slashes at its end, and without the segments there that are a single dot.
pub open spec fn without_end_dots(dir: Seq<char>) -> Seq<char>
    decreases dir.len(),
{
    if dir.len() > 0 && dir.last() == '/' {
        without_end_dots(dir.drop_last())
    } else if dir.len() > 1 && dir.last() == '.' && dir[dir.len() - 2] == '/' {
        without_end_dots(dir.drop_last())
    } else {
        dir
    }
}

/// The index of a cache: beside its directory, with another extension. A path without a name has
/// none and stays as it is.
pub open spec fn index_path_of(dir: Seq<char>) -> Seq<char> {
    let t = without_end_dots(dir);
    let k = match last_char(t, '/') {
        Some(i) => i + 1,
        None => 0,
    };
    let name = t.skip(k);
    if name.len() == 0 || name == "."@ || name == ".."@ {
        dir
    } else {
        match last_char(name, '.') {
            Some(i) => if i > 0 {
                t.take(k + i) + ".redb"@
            } else {
                t + ".redb"@
            },
            None => t + ".redb"@,
        }
    }
}

/// How a cache is moved.
pub enum MovePlan {
    /// There is a cache already.
    Refuse(String),
    Nothing,
    /// Index and directory are renamed.
    Rename { index: bool },
    /// They are copied, and the old ones deleted once that is done.
    Copy { index: bool },
}

/// What is known of the two places.
pub struct MoveFacts {
    pub to_index: bool,
    pub to_entries: bool,
    pub from_dir: bool,
    pub from_index: bool,
    pub same_device: bool,
}

/// How a cache is moved: never onto another, and by renaming where one file system holds both.
pub fn move_plan(to: &str, f: &MoveFacts) -> (r: MovePlan)
    ensures
        match r {
            MovePlan::Refuse(m) => (f.to_index || f.to_entries) && m@ == to@ + " already holds a cache"@,
            MovePlan::Nothing => !(f.to_index || f.to_entries) && !f.from_dir && !f.from_index,
            MovePlan::Rename { index } => !(f.to_index || f.to_entries) && (f.from_dir || f.from_index) && f.same_device
                && index == f.from_index,
            MovePlan::Copy { index } => !(f.to_index || f.to_entries) && (f.from_dir || f.from_index)
                && !f.same_device && index == f.from_index,
        },
{
    if f.to_index || f.to_entries {
        let mut m = to.to_owned();
        m.append(" already holds a cache");
        return MovePlan::Refuse(m);
    }
    if !f.from_dir && !f.from_index {
        return MovePlan::Nothing;
    }
    if f.same_device {
        MovePlan::Rename { index: f.from_index }
    } else {
        MovePlan::Copy { index: f.from_index }
    }
}

/// The name of the file that a stream is written to until it is complete.
pub fn stream_file_name(process: u32, n: u64) -> (r: String)
    ensures
        r@ == decimal(process as nat) + "-"@ + decimal(n as nat) + ".part"@,
{
    let mut v: Vec<char> = Vec::new();
    append_decimal(&mut v, process as u64);
    append_str(&mut v, "-");
    append_decimal(&mut v, n);
    append_str(&mut v, ".part");
    assert(v@ =~= decimal(process as nat) + "-"@ + decimal(n as nat) + ".part"@);
    string_of(&v)
}

pub fn index_path(dir: &str) -> (r: String)
    ensures
        r@ == index_path_of(dir@),
{
    let v = chars_of(dir);
    let mut n: usize = v.len();
    assert(v@.take(n as int) =~= v@);
    while n > 0 && (v[n - 1] == '/' || (n > 1 && v[n - 1] == '.' && v[n - 2] == '/'))
        invariant
            n <= v@.len(),
            without_end_dots(v@.take(n as int)) == without_end_dots(v@),
        decreases n,
    {
        assert(v@.take(n as int).drop_last() =~= v@.take(n - 1));
        n = n - 1;
    }
    let t = part(&v, 0, n);
    assert(t@ =~= v@.take(n as int));
    assert(t@ == without_end_dots(v@));
    let k: usize = match rfind_char(&t, '/') {
        Some(i) => i + 1,
        None => 0,
    };
    let name = part(&t, k, n);
    assert(name@ =~= t@.skip(k as int));
    if name.len() == 0 || crate::text::same_chars(&name, &chars_of(".")) || crate::text::same_chars(
        &name,
        &chars_of(".."),
    ) {
        return dir.to_owned();
    }
    let keep: usize = match rfind_char(&name, '.') {
        Some(i) => if i > 0 {
            k + i
        } else {
            n
        },
        None => n,
    };
    let mut out = part(&t, 0, keep);
    assert(out@ =~= t@.take(keep as int));
    append_str(&mut out, ".redb");
    assert(t@.take(n as int) =~= t@);
    string_of(&out)
}

} // verus!
