//! Saved accounts: the masking of phone numbers and names, the listing of
//! saved sessions, session file names, and the `k=v;k=v` cookie string that
//! a session file keeps.
use vstd::prelude::*;
use crate::text::{
    find, find_from, is_ws, push_str, split_chars, split_on, str_chars, string_of_chars,
    string_of_range, string_of_str, string_push, trim, trim_chars, trim_end, trim_start,
};

verus! {

/// A saved session as listed to the user.
pub struct SavedSession {
    pub phone: String,
    pub puid: i64,
    pub name: String,
    pub masked_name: String,
    pub masked_phone: String,
    pub has_password: bool,
}

impl SavedSession {
    /// A field-by-field copy.
    pub fn copy(&self) -> (r: SavedSession)
        ensures
            r == *self,
    {
        SavedSession {
            phone: self.phone.clone(),
            puid: self.puid,
            name: self.name.clone(),
            masked_name: self.masked_name.clone(),
            masked_phone: self.masked_phone.clone(),
            has_password: self.has_password,
        }
    }
}

/// The content of a session file: one per account, named after the phone.
pub struct SessionFile {
    pub phone: String,
    pub puid: i64,
    pub passwd: Option<String>,
    pub name: String,
    pub ck: String,
}

/// `n` asterisks.
pub open spec fn stars(n: nat) -> Seq<char> {
    Seq::new(n, |i: int| '*')
}

/// `_mask_phone`: up to seven characters become as many asterisks (one for
/// an empty phone); longer ones keep their first three and last four
/// characters around four asterisks.
pub open spec fn mask_phone_text(p: Seq<char>) -> Seq<char> {
    if p.len() <= 7 {
        stars(if p.len() == 0 { 1 } else { p.len() })
    } else {
        p.subrange(0, 3) + stars(4) + p.subrange(p.len() - 4, p.len() as int)
    }
}

/// `_mask_name`: empty stays empty, one character stays, two become the
/// first and an asterisk, more keep the first and the last around
/// asterisks.
pub open spec fn mask_name_text(n: Seq<char>) -> Seq<char> {
    if n.len() <= 1 {
        n
    } else if n.len() == 2 {
        seq![n[0], '*']
    } else {
        seq![n[0]] + stars((n.len() - 2) as nat) + seq![n.last()]
    }
}

fn push_stars(s: &mut String, k: usize)
    ensures
        final(s)@ == old(s)@ + stars(k as nat),
{
    let mut i: usize = 0;
    while i < k
        invariant
            i <= k,
            s@ == old(s)@ + stars(i as nat),
        decreases k - i,
    {
        string_push(s, '*');
        i = i + 1;
        assert(stars(i as nat) == stars((i - 1) as nat).push('*'));
    }
}

/// `_mask_phone`.
pub fn mask_phone(phone: &str) -> (r: String)
    ensures
        r@ == mask_phone_text(phone@),
{
    let v = str_chars(phone);
    let n = v.len();
    let mut out = String::new();
    if n <= 7 {
        let k: usize = if n == 0 { 1 } else { n };
        push_stars(&mut out, k);
        assert(out@ == stars(k as nat));
        return out;
    }
    let head = string_of_range(&v, 0, 3);
    let tail = string_of_range(&v, n - 4, n);
    push_str(&mut out, head.as_str());
    push_stars(&mut out, 4);
    push_str(&mut out, tail.as_str());
    out
}

/// `_mask_name`.
pub fn mask_name(name: &str) -> (r: String)
    ensures
        r@ == mask_name_text(name@),
{
    let v = str_chars(name);
    let n = v.len();
    if n <= 1 {
        return string_of_chars(&v);
    }
    let mut out = String::new();
    string_push(&mut out, v[0]);
    if n == 2 {
        string_push(&mut out, '*');
        assert(out@ == seq![v@[0], '*']);
        return out;
    }
    push_stars(&mut out, n - 2);
    string_push(&mut out, v[n - 1]);
    assert(out@ == seq![v@[0]] + stars((n - 2) as nat) + seq![v@.last()]);
    out
}

/// Whether `s` is the listing entry of the session file `f`.
pub open spec fn saved_of(s: SavedSession, f: SessionFile) -> bool {
    &&& s.phone@ == f.phone@
    &&& s.puid == f.puid
    &&& s.name@ == f.name@
    &&& s.masked_name@ == mask_name_text(f.name@)
    &&& s.masked_phone@ == mask_phone_text(f.phone@)
    &&& s.has_password == f.passwd is Some
}

/// The listing entry of a session file.
pub fn saved_session_of(f: &SessionFile) -> (r: SavedSession)
    ensures
        saved_of(r, *f),
{
    SavedSession {
        phone: f.phone.clone(),
        puid: f.puid,
        name: f.name.clone(),
        masked_name: mask_name(f.name.as_str()),
        masked_phone: mask_phone(f.phone.as_str()),
        has_password: f.passwd.is_some(),
    }
}


// ------------------------------------------------------------ file names

/// The file name of an account's session: `<phone>.json`.
pub open spec fn session_file_text(phone: Seq<char>) -> Seq<char> {
    phone + seq!['.', 'j', 's', 'o', 'n']
}

/// `format!("{phone}.json")`.
pub fn session_file_name(phone: &str) -> (r: String)
    ensures
        r@ == session_file_text(phone@),
{
    let mut s = string_of_str(phone);
    string_push(&mut s, '.');
    string_push(&mut s, 'j');
    string_push(&mut s, 's');
    string_push(&mut s, 'o');
    string_push(&mut s, 'n');
    assert(s@ == session_file_text(phone@));
    s
}

/// The last position of `c` in `s`.
pub open spec fn last_index_of(s: Seq<char>, c: char) -> Option<int>
    decreases s.len(),
{
    if s.len() == 0 {
        None
    } else if s.last() == c {
        Some(s.len() - 1)
    } else {
        last_index_of(s.drop_last(), c)
    }
}

/// The extension of a file name as `Path::extension` documents it: the
/// part after the final `.`, none when there is no `.` or the only one
/// starts the name.
pub open spec fn name_extension(name: Seq<char>) -> Option<Seq<char>> {
    match last_index_of(name, '.') {
        Some(i) => if i == 0 {
            None
        } else {
            Some(name.subrange(i + 1, name.len() as int))
        },
        None => None,
    }
}

/// A path separator: `/` or `\`.
pub open spec fn is_path_sep(c: char) -> bool {
    c == '/' || c == '\\'
}

/// A plain file name: not empty, no `/` or `\`, neither `.` nor `..`.
pub open spec fn single_name(p: Seq<char>) -> bool {
    &&& p.len() > 0
    &&& !p.contains('/')
    &&& !p.contains('\\')
    &&& p != seq!['.']
    &&& p != seq!['.', '.']
}

/// The last position of a separator in `s`.
pub open spec fn last_sep(s: Seq<char>) -> Option<int>
    decreases s.len(),
{
    if s.len() == 0 {
        None
    } else if is_path_sep(s.last()) {
        Some(s.len() - 1)
    } else {
        last_sep(s.drop_last())
    }
}

/// The file name of `path` when the text before its last separator is
/// `dir`.
pub open spec fn name_in_dir(path: Seq<char>, dir: Seq<char>) -> Option<Seq<char>> {
    match last_sep(path) {
        Some(i) => if path.subrange(0, i) == dir {
            Some(path.subrange(i + 1, path.len() as int))
        } else {
            None
        },
        None => None,
    }
}

/// Whether `path` is a session file of the directory `dir`: a plain name
/// with extension `json` directly inside `dir`, the path's parent written
/// exactly as `dir`.
pub open spec fn is_session_path(path: Seq<char>, dir: Seq<char>) -> bool {
    match name_in_dir(path, dir) {
        Some(name) => single_name(name) && name_extension(name) == Some(seq!['j', 's', 'o', 'n']),
        None => false,
    }
}

proof fn lemma_last_index(s: Seq<char>, c: char)
    ensures
        match last_index_of(s, c) {
            Some(i) => 0 <= i < s.len() && s[i] == c && forall|j: int| i < j < s.len() ==> s[j] != c,
            None => forall|j: int| 0 <= j < s.len() ==> s[j] != c,
        },
    decreases s.len(),
{
    if s.len() > 0 {
        let d = s.drop_last();
        lemma_last_index(d, c);
        if s.last() != c {
            assert forall|j: int| 0 <= j < d.len() implies d[j] == s[j] by {}
        }
    }
}

fn has_char(v: &Vec<char>, c: char) -> (r: bool)
    ensures
        r == v@.contains(c),
{
    let mut i: usize = 0;
    while i < v.len()
        invariant
            i <= v.len(),
            forall|j: int| 0 <= j < i ==> v@[j] != c,
        decreases v.len() - i,
    {
        if v[i] == c {
            assert(v@[i as int] == c);
            return true;
        }
        i = i + 1;
    }
    false
}

/// Whether a file name is a plain name with extension `json`.
fn is_json_name(n: &Vec<char>) -> (r: bool)
    ensures
        r == (single_name(n@) && name_extension(n@) == Some(seq!['j', 's', 'o', 'n'])),
{
    let ghost json = seq!['j', 's', 'o', 'n'];
    let ghost s = n@;
    proof {
        lemma_last_index(s, '.');
    }
    let len = n.len();
    let shape = len >= 6 && n[len - 5] == '.' && n[len - 4] == 'j' && n[len - 3] == 's' && n[len - 2] == 'o'
        && n[len - 1] == 'n';
    assert(shape == (name_extension(s) == Some(json))) by {
        if shape {
            let i = len - 5;
            assert(last_index_of(s, '.') == Some(i as int)) by {
                match last_index_of(s, '.') {
                    Some(k) => {
                        if k < i {
                            assert(s[i as int] == '.');
                        }
                    },
                    None => {
                        assert(s[i as int] == '.');
                    },
                }
            }
            assert(s.subrange(i + 1, len as int) =~= json);
        }
        if name_extension(s) == Some(json) {
            let k = last_index_of(s, '.')->0;
            assert(s.subrange(k + 1, s.len() as int) == json);
            assert(s.len() - k - 1 == 4);
            assert(s[s.len() - 4] == s.subrange(k + 1, s.len() as int)[0]);
            assert(s[s.len() - 3] == s.subrange(k + 1, s.len() as int)[1]);
            assert(s[s.len() - 2] == s.subrange(k + 1, s.len() as int)[2]);
            assert(s[s.len() - 1] == s.subrange(k + 1, s.len() as int)[3]);
        }
    }
    if !shape {
        return false;
    }
    let slash = has_char(n, '/');
    let back = has_char(n, '\\');
    assert(s != seq!['.'] && s != seq!['.', '.']) by {
        assert(s.len() >= 6);
    }
    !slash && !back
}

/// `is_session_file(path)` for the session directory `dir`: whether the
/// path names a `json` file directly inside `dir`. The parent is the text
/// before the path's last `/` or `\`, compared with `dir` as written.
pub fn is_session_file(path: &str, dir: &str) -> (r: bool)
    ensures
        r == is_session_path(path@, dir@),
{
    let v = str_chars(path);
    let d = str_chars(dir);
    let ghost s = v@;
    let mut i = v.len();
    assert(s.subrange(0, i as int) == s);
    while i > 0 && !(v[i - 1] == '/' || v[i - 1] == '\\')
        invariant
            i <= v.len(),
            s == v@,
            last_sep(s) == last_sep(s.subrange(0, i as int)),
        decreases i,
    {
        let ghost cur = s.subrange(0, i as int);
        assert(cur.drop_last() == s.subrange(0, i - 1));
        assert(cur.last() == v@[i - 1]);
        i = i - 1;
    }
    if i == 0 {
        assert(s.subrange(0, 0) == Seq::<char>::empty());
        return false;
    }
    let k = i - 1;
    proof {
        let cur = s.subrange(0, i as int);
        assert(cur.last() == v@[k as int]);
        assert(last_sep(cur) == Some(k as int));
    }
    let parent = string_of_range(&v, 0, k);
    if !crate::text::str_eq(parent.as_str(), dir) {
        return false;
    }
    let name = string_of_range(&v, k + 1, v.len());
    let nv = str_chars(name.as_str());
    is_json_name(&nv)
}

/// A session file written for a phone that is not empty and holds no `/`
/// or `\`, at `<dir>/<phone>.json`, is recognised as a session file of
/// `dir`.
pub proof fn lemma_session_file_recognized(dir: Seq<char>, phone: Seq<char>)
    requires
        phone.len() > 0,
        !phone.contains('/'),
        !phone.contains('\\'),
    ensures
        is_session_path(dir + seq!['/'] + session_file_text(phone), dir),
{
    let p = session_file_text(phone);
    let json = seq!['j', 's', 'o', 'n'];
    assert(p.len() == phone.len() + 5);
    assert(forall|j: int| 0 <= j < p.len() ==> !is_path_sep(#[trigger] p[j])) by {
        assert forall|j: int| 0 <= j < p.len() implies !is_path_sep(#[trigger] p[j]) by {
            if j < phone.len() {
                assert(p[j] == phone[j]);
                if p[j] == '/' {
                    assert(phone.contains('/'));
                }
                if p[j] == '\\' {
                    assert(phone.contains('\\'));
                }
            }
        }
    }
    assert(!p.contains('/') && !p.contains('\\')) by {
        if p.contains('/') {
            let j = choose|j: int| 0 <= j < p.len() && p[j] == '/';
            assert(!is_path_sep(p[j]));
        }
        if p.contains('\\') {
            let j = choose|j: int| 0 <= j < p.len() && p[j] == '\\';
            assert(!is_path_sep(p[j]));
        }
    }
    let full = dir + seq!['/'] + p;
    lemma_last_sep_after(dir + seq!['/'], p);
    assert(full.subrange(0, dir.len() as int) =~= dir);
    assert(full.subrange(dir.len() as int + 1, full.len() as int) =~= p);
    let i = phone.len() as int;
    assert(p[i] == '.');
    assert(last_index_of(p, '.') == Some(i)) by {
        lemma_last_index(p, '.');
        match last_index_of(p, '.') {
            Some(k) => {
                if k < i {
                    assert(p[i] == '.');
                }
                if k > i {
                    assert(p[k] != '.');
                }
            },
            None => {
                assert(p[i] == '.');
            },
        }
    }
    assert(p.subrange(i + 1, p.len() as int) =~= json);
    assert(p != seq!['.'] && p != seq!['.', '.']) by {
        assert(p.len() >= 6);
    }
}

proof fn lemma_last_sep_after(a: Seq<char>, p: Seq<char>)
    requires
        a.len() > 0,
        is_path_sep(a.last()),
        forall|j: int| 0 <= j < p.len() ==> !is_path_sep(#[trigger] p[j]),
    ensures
        last_sep(a + p) == Some(a.len() - 1),
    decreases p.len(),
{
    if p.len() == 0 {
        assert(a + p == a);
    } else {
        let q = p.drop_last();
        assert forall|j: int| 0 <= j < q.len() implies !is_path_sep(#[trigger] q[j]) by {
            assert(q[j] == p[j]);
        }
        lemma_last_sep_after(a, q);
        assert((a + p).drop_last() == a + q);
        assert((a + p).last() == p[p.len() - 1]);
    }
}

// ------------------------------------------------------------- the listing

/// `String` ordering: lexicographic on characters, a proper prefix first
/// (UTF-8 byte order is code point order).
pub open spec fn text_lt(a: Seq<char>, b: Seq<char>) -> bool
    decreases a.len(),
{
    if b.len() == 0 {
        false
    } else if a.len() == 0 {
        true
    } else if a[0] < b[0] {
        true
    } else if a[0] > b[0] {
        false
    } else {
        text_lt(a.drop_first(), b.drop_first())
    }
}

/// Whether `a < b` as `String`s compare.
pub fn text_lt_exec(a: &Vec<char>, b: &Vec<char>) -> (r: bool)
    ensures
        r == text_lt(a@, b@),
{
    let mut i: usize = 0;
    assert(a@.subrange(0, a.len() as int) == a@);
    assert(b@.subrange(0, b.len() as int) == b@);
    while i < a.len() && i < b.len()
        invariant
            i <= a.len(),
            i <= b.len(),
            text_lt(a@, b@) == text_lt(
                a@.subrange(i as int, a.len() as int),
                b@.subrange(i as int, b.len() as int),
            ),
        decreases a.len() - i,
    {
        let ghost x = a@.subrange(i as int, a.len() as int);
        let ghost y = b@.subrange(i as int, b.len() as int);
        assert(x[0] == a@[i as int] && y[0] == b@[i as int]);
        if a[i] < b[i] {
            return true;
        }
        if a[i] > b[i] {
            return false;
        }
        assert(x.drop_first() == a@.subrange(i + 1, a.len() as int));
        assert(y.drop_first() == b@.subrange(i + 1, b.len() as int));
        i = i + 1;
    }
    i == a.len() && i < b.len()
}

/// Inserts `x` into a list after every entry whose phone is not greater.
pub open spec fn insert_by_phone(s: Seq<SavedSession>, x: SavedSession) -> Seq<SavedSession>
    decreases s.len(),
{
    if s.len() == 0 {
        seq![x]
    } else if text_lt(x.phone@, s.last().phone@) {
        insert_by_phone(s.drop_last(), x).push(s.last())
    } else {
        s.push(x)
    }
}

/// The stable sort by phone (`sort_by` on `phone.cmp`), as an insertion
/// sort.
pub open spec fn sort_by_phone(s: Seq<SavedSession>) -> Seq<SavedSession>
    decreases s.len(),
{
    if s.len() == 0 {
        Seq::empty()
    } else {
        insert_by_phone(sort_by_phone(s.drop_last()), s.last())
    }
}

proof fn lemma_insert_by_phone_at(s: Seq<SavedSession>, x: SavedSession, j: int)
    requires
        0 <= j <= s.len(),
        forall|t: int| j <= t < s.len() ==> text_lt(x.phone@, #[trigger] s[t].phone@),
        j == 0 || !text_lt(x.phone@, s[j - 1].phone@),
    ensures
        insert_by_phone(s, x) == s.subrange(0, j).push(x) + s.subrange(j, s.len() as int),
    decreases s.len(),
{
    if s.len() == j {
        if s.len() == 0 {
            assert(s.subrange(0, 0).push(x) + s.subrange(0, 0) == seq![x]);
        } else {
            assert(s.subrange(0, j) == s);
            assert(s.subrange(j, s.len() as int) == Seq::<SavedSession>::empty());
        }
    } else {
        assert(text_lt(x.phone@, s[s.len() - 1].phone@));
        let d = s.drop_last();
        assert forall|t: int| j <= t < d.len() implies text_lt(x.phone@, #[trigger] d[t].phone@) by {
            assert(d[t] == s[t]);
        }
        if j > 0 {
            assert(d[j - 1] == s[j - 1]);
        }
        lemma_insert_by_phone_at(d, x, j);
        assert(d.subrange(0, j) == s.subrange(0, j));
        assert(d.subrange(j, d.len() as int).push(s.last()) == s.subrange(j, s.len() as int));
        assert((s.subrange(0, j).push(x) + d.subrange(j, d.len() as int)).push(s.last()) == s.subrange(
            0,
            j,
        ).push(x) + s.subrange(j, s.len() as int));
    }
}

/// Sorts saved sessions by phone, keeping the order of equal phones.
pub fn sort_saved_sessions(v: &Vec<SavedSession>) -> (r: Vec<SavedSession>)
    ensures
        r@ == sort_by_phone(v@),
{
    let mut res: Vec<SavedSession> = Vec::new();
    let mut keys: Vec<Vec<char>> = Vec::new();
    let mut i: usize = 0;
    while i < v.len()
        invariant
            i <= v.len(),
            res@ == sort_by_phone(v@.subrange(0, i as int)),
            keys@.len() == res@.len(),
            forall|t: int| 0 <= t < keys@.len() ==> #[trigger] keys@[t]@ == res@[t].phone@,
        decreases v.len() - i,
    {
        let x = v[i].copy();
        let kx = str_chars(x.phone.as_str());
        let mut j = res.len();
        while j > 0 && text_lt_exec(&kx, &keys[j - 1])
            invariant
                j <= res@.len(),
                keys@.len() == res@.len(),
                kx@ == x.phone@,
                forall|t: int| 0 <= t < keys@.len() ==> #[trigger] keys@[t]@ == res@[t].phone@,
                forall|t: int| j <= t < res@.len() ==> text_lt(kx@, #[trigger] res@[t].phone@),
            decreases j,
        {
            assert(keys@[j - 1]@ == res@[j - 1].phone@);
            j = j - 1;
        }
        proof {
            if j > 0 {
                assert(keys@[j - 1]@ == res@[j - 1].phone@);
            }
            lemma_insert_by_phone_at(res@, x, j as int);
            let next = v@.subrange(0, i + 1);
            assert(next.drop_last() == v@.subrange(0, i as int));
            assert(next.last() == x);
        }
        let ghost old_res = res@;
        let ghost old_keys = keys@;
        res.insert(j, x);
        keys.insert(j, kx);
        assert(res@ == old_res.subrange(0, j as int).push(x) + old_res.subrange(
            j as int,
            old_res.len() as int,
        ));
        assert forall|t: int| 0 <= t < keys@.len() implies #[trigger] keys@[t]@ == res@[t].phone@ by {
            if t < j {
                assert(keys@[t] == old_keys[t] && res@[t] == old_res[t]);
            } else if t > j {
                assert(keys@[t] == old_keys[t - 1] && res@[t] == old_res[t - 1]);
            }
        }
        i = i + 1;
    }
    assert(v@.subrange(0, v.len() as int) == v@);
    res
}

/// `list_saved_sessions` after the files are read: one entry per file,
/// sorted by phone, equal phones in file order.
pub fn saved_sessions(files: &Vec<SessionFile>) -> (r: Vec<SavedSession>)
    ensures
        exists|raw: Seq<SavedSession>|
            raw.len() == files@.len() && (forall|i: int| 0 <= i < raw.len() ==> saved_of(#[trigger] raw[i], files@[i]))
                && r@ == sort_by_phone(raw),
{
    let mut raw: Vec<SavedSession> = Vec::new();
    let mut i: usize = 0;
    while i < files.len()
        invariant
            i <= files.len(),
            raw@.len() == i,
            forall|k: int| 0 <= k < i ==> saved_of(#[trigger] raw@[k], files@[k]),
        decreases files.len() - i,
    {
        raw.push(saved_session_of(&files[i]));
        i = i + 1;
    }
    let r = sort_saved_sessions(&raw);
    assert(r@ == sort_by_phone(raw@));
    r
}


// ---------------------------------------------------------- cookie strings

/// One field of a cookie string: trimmed, and when it is not empty and
/// holds a `=`, the trimmed text before the first `=` and the text after it.
pub open spec fn cookie_field(f: Seq<char>) -> Option<(Seq<char>, Seq<char>)> {
    let t = trim(f);
    if t.len() == 0 {
        None
    } else {
        match find(t, seq!['=']) {
            Some(i) => Some((trim(t.subrange(0, i)), t.subrange(i + 1, t.len() as int))),
            None => None,
        }
    }
}

/// The pairs read from the fields, in order, fields without a pair skipped.
pub open spec fn cookie_fields(fs: Seq<Seq<char>>) -> Seq<(Seq<char>, Seq<char>)>
    decreases fs.len(),
{
    if fs.len() == 0 {
        Seq::empty()
    } else {
        match cookie_field(fs.last()) {
            Some(p) => cookie_fields(fs.drop_last()).push(p),
            None => cookie_fields(fs.drop_last()),
        }
    }
}

/// `ck_load`'s reading of a cookie string: the pairs of its `;`-separated
/// fields.
pub open spec fn cookie_pairs_of(ck: Seq<char>) -> Seq<(Seq<char>, Seq<char>)> {
    cookie_fields(split_on(ck, seq![';']))
}

/// `name=value`.
pub open spec fn pair_text(p: (Seq<char>, Seq<char>)) -> Seq<char> {
    p.0 + seq!['='] + p.1
}

/// The texts, each followed by `;`.
pub open spec fn terminated_fields(parts: Seq<Seq<char>>) -> Seq<char>
    decreases parts.len(),
{
    if parts.len() == 0 {
        Seq::empty()
    } else {
        terminated_fields(parts.drop_last()) + parts.last() + seq![';']
    }
}

/// `ck_dump`'s cookie string `k=v;k=v;`: `name=value` for each cookie,
/// each followed by `;`.
pub open spec fn cookie_text(pairs: Seq<(Seq<char>, Seq<char>)>) -> Seq<char> {
    terminated_fields(pairs.map_values(|p: (Seq<char>, Seq<char>)| pair_text(p)))
}

fn pair_of_field(f: &Vec<char>) -> (r: Option<(String, String)>)
    ensures
        match r {
            Some(p) => cookie_field(f@) == Some((p.0@, p.1@)),
            None => cookie_field(f@) is None,
        },
{
    let t = trim_chars(f);
    if t.len() == 0 {
        return None;
    }
    let mut eq: Vec<char> = Vec::new();
    eq.push('=');
    assert(eq@ == seq!['=']);
    assert(t@.subrange(0, t@.len() as int) == t@);
    proof {
        crate::markup::lemma_find_bounds(t@, eq@);
    }
    match find_from(&t, &eq, 0) {
        Some(k) => {
            let key = string_of_range(&t, 0, k);
            let kc = str_chars(key.as_str());
            let kt = trim_chars(&kc);
            let name = string_of_chars(&kt);
            let value = string_of_range(&t, k + 1, t.len());
            Some((name, value))
        },
        None => None,
    }
}

/// `ck_load`'s reading of a cookie string.
pub fn cookie_pairs(ck: &str) -> (r: Vec<(String, String)>)
    ensures
        crate::attachment::params_view(r@) == cookie_pairs_of(ck@),
{
    let v = str_chars(ck);
    let mut seps: Vec<char> = Vec::new();
    seps.push(';');
    assert(seps@ == seq![';']);
    let fields = split_chars(&v, &seps);
    let ghost fs = split_on(v@, seps@);
    let mut out: Vec<(String, String)> = Vec::new();
    let mut i: usize = 0;
    while i < fields.len()
        invariant
            i <= fields.len(),
            fs == split_on(v@, seps@),
            fields@.len() == fs.len(),
            forall|j: int| 0 <= j < fields@.len() ==> #[trigger] fields@[j]@ == fs[j],
            crate::attachment::params_view(out@) == cookie_fields(fs.subrange(0, i as int)),
        decreases fields.len() - i,
    {
        let ghost pre = fs.subrange(0, i as int);
        let ghost next = fs.subrange(0, i + 1);
        assert(next.drop_last() == pre);
        assert(next.last() == fields@[i as int]@);
        let ghost prev = out@;
        match pair_of_field(&fields[i]) {
            Some(p) => {
                out.push(p);
                assert(out@.drop_last() == prev);
                assert(crate::attachment::params_view(out@) =~= crate::attachment::params_view(prev).push(
                    (out@.last().0@, out@.last().1@),
                ));
            },
            None => {},
        }
        i = i + 1;
    }
    assert(fs.subrange(0, fs.len() as int) == fs);
    out
}

/// `ck_dump`'s string of the cookies it lists: `name=value;` for each.
pub fn cookie_string(pairs: &Vec<(String, String)>) -> (r: String)
    ensures
        r@ == cookie_text(crate::attachment::params_view(pairs@)),
{
    let ghost ps = crate::attachment::params_view(pairs@);
    let ghost texts = ps.map_values(|p: (Seq<char>, Seq<char>)| pair_text(p));
    let mut out = String::new();
    let mut i: usize = 0;
    while i < pairs.len()
        invariant
            i <= pairs.len(),
            ps == crate::attachment::params_view(pairs@),
            texts == ps.map_values(|p: (Seq<char>, Seq<char>)| pair_text(p)),
            out@ == terminated_fields(texts.subrange(0, i as int)),
        decreases pairs.len() - i,
    {
        let ghost pre = texts.subrange(0, i as int);
        let ghost next = texts.subrange(0, i + 1);
        assert(next.drop_last() == pre);
        assert(next.last() == pairs@[i as int].0@ + seq!['='] + pairs@[i as int].1@);
        push_str(&mut out, pairs[i].0.as_str());
        string_push(&mut out, '=');
        push_str(&mut out, pairs[i].1.as_str());
        string_push(&mut out, ';');
        assert(out@ == terminated_fields(pre) + next.last() + seq![';']);
        i = i + 1;
    }
    assert(texts.subrange(0, pairs.len() as int) == texts);
    out
}

/// A cookie name that the string form keeps: no `;`, no `=`, and no
/// whitespace at either end.
pub open spec fn cookie_name_ok(k: Seq<char>) -> bool {
    &&& !k.contains(';')
    &&& !k.contains('=')
    &&& (k.len() == 0 || (!is_ws(k[0]) && !is_ws(k.last())))
}

/// A cookie value that the string form keeps: no `;`, and no whitespace
/// at its end.
pub open spec fn cookie_value_ok(v: Seq<char>) -> bool {
    &&& !v.contains(';')
    &&& (v.len() == 0 || !is_ws(v.last()))
}

/// A cookie that the string form keeps.
pub open spec fn cookie_pair_ok(p: (Seq<char>, Seq<char>)) -> bool {
    cookie_name_ok(p.0) && cookie_value_ok(p.1)
}

proof fn lemma_split_extend(x: Seq<char>, t: Seq<char>)
    requires
        !t.contains(';'),
    ensures
        split_on(x + t, seq![';']) == split_on(x, seq![';']).update(
            split_on(x, seq![';']).len() - 1,
            split_on(x, seq![';']).last() + t,
        ),
    decreases t.len(),
{
    let seps = seq![';'];
    crate::text::lemma_split_on_nonempty(x, seps);
    let p = split_on(x, seps);
    if t.len() == 0 {
        assert(x + t == x);
        assert(p.last() + t == p.last());
        assert(p.update(p.len() - 1, p.last()) =~= p);
    } else {
        let t1 = t.drop_last();
        assert(!t1.contains(';')) by {
            if t1.contains(';') {
                let i = choose|i: int| 0 <= i < t1.len() && t1[i] == ';';
                assert(t[i] == ';');
            }
        }
        lemma_split_extend(x, t1);
        let s = x + t;
        assert(s.drop_last() == x + t1);
        assert(s.last() == t[t.len() - 1]);
        assert(!seps.contains(s.last())) by {
            if seps.contains(s.last()) {
                assert(seps[0] == ';');
                assert(t.contains(';'));
            }
        }
        let q = p.update(p.len() - 1, p.last() + t1);
        assert(q.last() == p.last() + t1);
        assert((p.last() + t1).push(t.last()) == p.last() + t);
        assert(q.update(q.len() - 1, q.last().push(s.last())) =~= p.update(p.len() - 1, p.last() + t));
    }
}

proof fn lemma_split_terminated(parts: Seq<Seq<char>>)
    requires
        forall|i: int| 0 <= i < parts.len() ==> !(#[trigger] parts[i]).contains(';'),
    ensures
        split_on(terminated_fields(parts), seq![';']) == parts.push(Seq::<char>::empty()),
    decreases parts.len(),
{
    let seps = seq![';'];
    if parts.len() == 0 {
        assert(parts.push(Seq::<char>::empty()) =~= seq![Seq::<char>::empty()]);
    } else {
        let d = parts.drop_last();
        assert forall|i: int| 0 <= i < d.len() implies !(#[trigger] d[i]).contains(';') by {
            assert(d[i] == parts[i]);
        }
        lemma_split_terminated(d);
        let t = parts.last();
        assert(!t.contains(';')) by {
            assert(parts[parts.len() - 1] == t);
        }
        let x = terminated_fields(d);
        lemma_split_extend(x, t);
        let p = split_on(x, seps);
        assert(p.last() == Seq::<char>::empty());
        assert(Seq::<char>::empty() + t == t);
        assert(p.update(p.len() - 1, t) =~= parts);
        let s = terminated_fields(parts);
        assert(s == (x + t) + seq![';']);
        assert(s.drop_last() == x + t);
        assert(s.last() == ';');
        assert(seps.contains(';')) by {
            assert(seps[0] == ';');
        }
    }
}

proof fn lemma_find_eq(k: Seq<char>, rest: Seq<char>)
    requires
        !k.contains('='),
        rest.len() > 0,
        rest[0] == '=',
    ensures
        find(k + rest, seq!['=']) == Some(k.len() as int),
    decreases k.len(),
{
    let s = k + rest;
    if k.len() == 0 {
        assert(s == rest);
        assert(s.subrange(0, 1) =~= seq!['=']);
    } else {
        assert(s[0] == k[0]);
        assert(k[0] != '=');
        assert(!crate::text::occurs_at(s, seq!['='], 0)) by {
            if s.subrange(0, 1) == seq!['='] {
                assert(s.subrange(0, 1)[0] == s[0]);
            }
        }
        let k1 = k.drop_first();
        assert(!k1.contains('=')) by {
            if k1.contains('=') {
                let i = choose|i: int| 0 <= i < k1.len() && k1[i] == '=';
                assert(k[i + 1] == '=');
            }
        }
        lemma_find_eq(k1, rest);
        assert(s.drop_first() == k1 + rest);
    }
}

proof fn lemma_field_roundtrip(p: (Seq<char>, Seq<char>))
    requires
        cookie_name_ok(p.0),
        cookie_value_ok(p.1),
    ensures
        cookie_field(pair_text(p)) == Some(p),
{
    let (k, v) = p;
    let t = pair_text(p);
    let eq = seq!['='];
    assert(t.len() > 0);
    assert(!is_ws(t[0])) by {
        if k.len() > 0 {
            assert(t[0] == k[0]);
        } else {
            assert(t[0] == '=');
        }
    }
    assert(!is_ws(t.last())) by {
        if v.len() > 0 {
            assert(t.last() == v.last());
        } else {
            assert(t.last() == '=');
        }
    }
    assert(trim_start(t) == t);
    assert(trim_end(t) == t);
    assert(trim(t) == t);
    assert(t == k + (eq + v));
    lemma_find_eq(k, eq + v);
    assert(t.subrange(0, k.len() as int) == k);
    assert(t.subrange(k.len() as int + 1, t.len() as int) == v);
    if k.len() > 0 {
        assert(trim_start(k) == k);
        assert(trim_end(k) == k);
    } else {
        assert(trim_start(k) == k);
    }
}

/// A cookie string read back gives the cookies that were written: for
/// names without `;`, `=` or surrounding whitespace and values without `;`
/// or trailing whitespace, `ck_load`'s reading of `ck_dump`'s string is the
/// list of pairs itself.
pub proof fn lemma_cookie_roundtrip(pairs: Seq<(Seq<char>, Seq<char>)>)
    requires
        forall|i: int| 0 <= i < pairs.len() ==> cookie_pair_ok(#[trigger] pairs[i]),
    ensures
        cookie_pairs_of(cookie_text(pairs)) == pairs,
{
    let texts = pairs.map_values(|p: (Seq<char>, Seq<char>)| pair_text(p));
    assert forall|i: int| 0 <= i < texts.len() implies !(#[trigger] texts[i]).contains(';') by {
        let (k, v) = pairs[i];
        assert(cookie_pair_ok(pairs[i]));
        assert(texts[i] == k + seq!['='] + v);
        if texts[i].contains(';') {
            let j = choose|j: int| 0 <= j < texts[i].len() && texts[i][j] == ';';
            if j < k.len() {
                assert(k[j] == ';');
            } else if j > k.len() {
                assert(v[j - k.len() - 1] == ';');
            }
        }
    }
    lemma_split_terminated(texts);
    lemma_fields_roundtrip(pairs);
    let all = texts.push(Seq::<char>::empty());
    assert(all.drop_last() == texts);
    assert(trim(Seq::<char>::empty()) == Seq::<char>::empty());
    assert(cookie_field(all.last()) is None);
    assert(cookie_fields(all) == cookie_fields(texts));
}

proof fn lemma_fields_roundtrip(pairs: Seq<(Seq<char>, Seq<char>)>)
    requires
        forall|i: int| 0 <= i < pairs.len() ==> cookie_pair_ok(#[trigger] pairs[i]),
    ensures
        cookie_fields(pairs.map_values(|p: (Seq<char>, Seq<char>)| pair_text(p))) == pairs,
    decreases pairs.len(),
{
    let texts = pairs.map_values(|p: (Seq<char>, Seq<char>)| pair_text(p));
    if pairs.len() > 0 {
        let d = pairs.drop_last();
        assert forall|i: int| 0 <= i < d.len() implies cookie_pair_ok(#[trigger] d[i]) by {
            assert(d[i] == pairs[i]);
        }
        lemma_fields_roundtrip(d);
        assert(texts.drop_last() =~= d.map_values(|p: (Seq<char>, Seq<char>)| pair_text(p)));
        let last = pairs[pairs.len() - 1];
        assert(cookie_pair_ok(last));
        lemma_field_roundtrip(last);
        assert(texts.last() == pair_text(last));
        assert(d.push(last) == pairs);
    }
}

// ------------------------------------------------------ the sorting laws

proof fn lemma_text_lt_irreflexive(a: Seq<char>)
    ensures
        !text_lt(a, a),
    decreases a.len(),
{
    if a.len() > 0 {
        lemma_text_lt_irreflexive(a.drop_first());
    }
}

proof fn lemma_text_lt_transitive(a: Seq<char>, b: Seq<char>, c: Seq<char>)
    requires
        text_lt(a, b),
        text_lt(b, c),
    ensures
        text_lt(a, c),
    decreases a.len(),
{
    if a.len() > 0 && a[0] == b[0] && b[0] == c[0] {
        lemma_text_lt_transitive(a.drop_first(), b.drop_first(), c.drop_first());
    }
}

proof fn lemma_text_lt_total(a: Seq<char>, b: Seq<char>)
    requires
        a != b,
    ensures
        text_lt(a, b) || text_lt(b, a),
    decreases a.len(),
{
    if a.len() > 0 && b.len() > 0 && a[0] == b[0] {
        if a.drop_first() == b.drop_first() {
            assert(a =~= seq![a[0]] + a.drop_first());
            assert(b =~= seq![b[0]] + b.drop_first());
        }
        lemma_text_lt_total(a.drop_first(), b.drop_first());
    } else if a.len() == 0 && b.len() == 0 {
        assert(a =~= b);
    }
}

/// Not `b < a`, for the ordering by phone.
pub open spec fn phone_le(a: SavedSession, b: SavedSession) -> bool {
    !text_lt(b.phone@, a.phone@)
}

/// Every entry's phone is not greater than any later entry's.
pub open spec fn sorted_by_phone(s: Seq<SavedSession>) -> bool {
    forall|i: int, j: int| 0 <= i < j < s.len() ==> phone_le(#[trigger] s[i], #[trigger] s[j])
}

proof fn lemma_phone_le_transitive(a: SavedSession, b: SavedSession, c: SavedSession)
    requires
        phone_le(a, b),
        phone_le(b, c),
    ensures
        phone_le(a, c),
{
    if text_lt(c.phone@, a.phone@) {
        if a.phone@ == b.phone@ {
        } else {
            lemma_text_lt_total(a.phone@, b.phone@);
            lemma_text_lt_transitive(c.phone@, a.phone@, b.phone@);
        }
    }
}

proof fn lemma_insert_by_phone_keeps(s: Seq<SavedSession>, x: SavedSession)
    ensures
        insert_by_phone(s, x).to_multiset() =~= s.to_multiset().insert(x),
    decreases s.len(),
{
    broadcast use vstd::seq_lib::group_to_multiset_ensures;

    if s.len() == 0 {
        assert(seq![x] == Seq::<SavedSession>::empty().push(x));
    } else if text_lt(x.phone@, s.last().phone@) {
        lemma_insert_by_phone_keeps(s.drop_last(), x);
        assert(s.drop_last().push(s.last()) == s);
    }
}

proof fn lemma_insert_by_phone_sorted(s: Seq<SavedSession>, x: SavedSession)
    requires
        sorted_by_phone(s),
    ensures
        sorted_by_phone(insert_by_phone(s, x)),
    decreases s.len(),
{
    broadcast use vstd::seq_lib::group_to_multiset_ensures;

    let r = insert_by_phone(s, x);
    if s.len() == 0 {
    } else if text_lt(x.phone@, s.last().phone@) {
        let d = s.drop_last();
        let last = s.last();
        assert(sorted_by_phone(d)) by {
            assert forall|i: int, j: int| 0 <= i < j < d.len() implies phone_le(#[trigger] d[i], #[trigger] d[j]) by {
                assert(d[i] == s[i] && d[j] == s[j]);
            }
        }
        lemma_insert_by_phone_sorted(d, x);
        lemma_insert_by_phone_keeps(d, x);
        let q = insert_by_phone(d, x);
        assert forall|i: int| 0 <= i < q.len() implies phone_le(#[trigger] q[i], last) by {
            let e = q[i];
            assert(q.contains(e));
            assert(q.to_multiset().count(e) > 0);
            if e == x {
                lemma_text_lt_irreflexive(x.phone@);
                if text_lt(last.phone@, x.phone@) {
                    lemma_text_lt_transitive(x.phone@, last.phone@, x.phone@);
                }
            } else {
                assert(d.to_multiset().count(e) > 0);
                assert(d.contains(e));
                let k = choose|k: int| 0 <= k < d.len() && d[k] == e;
                assert(s[k] == e && s[s.len() - 1] == last);
            }
        }
        assert forall|i: int, j: int| 0 <= i < j < r.len() implies phone_le(#[trigger] r[i], #[trigger] r[j]) by {
            if j < q.len() {
                assert(r[i] == q[i] && r[j] == q[j]);
            } else {
                assert(r[i] == q[i] && r[j] == last);
            }
        }
    } else {
        let last = s.last();
        assert forall|i: int, j: int| 0 <= i < j < r.len() implies phone_le(#[trigger] r[i], #[trigger] r[j]) by {
            if j < s.len() {
                assert(r[i] == s[i] && r[j] == s[j]);
            } else {
                assert(r[j] == x && r[i] == s[i]);
                if i < s.len() - 1 {
                    assert(phone_le(s[i], s[s.len() - 1]));
                    lemma_phone_le_transitive(s[i], last, x);
                }
            }
        }
    }
}

/// The listing order: sorting by phone yields entries in phone order and
/// keeps every entry, each as often as it came.
pub proof fn lemma_sort_by_phone(s: Seq<SavedSession>)
    ensures
        sorted_by_phone(sort_by_phone(s)),
        sort_by_phone(s).to_multiset() =~= s.to_multiset(),
    decreases s.len(),
{
    broadcast use vstd::seq_lib::group_to_multiset_ensures;

    if s.len() > 0 {
        lemma_sort_by_phone(s.drop_last());
        lemma_insert_by_phone_sorted(sort_by_phone(s.drop_last()), s.last());
        lemma_insert_by_phone_keeps(sort_by_phone(s.drop_last()), s.last());
        assert(s.drop_last().push(s.last()) == s);
    }
}

} // verus!
