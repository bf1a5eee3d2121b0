//! HidHide integration: device-path normalisation, the `REG_MULTI_SZ`
//! encoding of the driver's lists, and the state transitions of the driver's
//! parameters (blacklist, whitelist, active flag).

use vstd::prelude::*;
use vstd::string::StringExecFns;
use crate::text::{
    chars_eq_ignore_ascii_case, chars_of, eq_ignore_ascii_case, string_of, to_lowercase,
    to_uppercase, trim, trim_chars, lower_case, upper_case,
};

verus! {

// ---------------------------------------------------------------------------
// Character-sequence searching
// ---------------------------------------------------------------------------

/// Index of the last `c` in `s`, `-1` when absent.
pub open spec fn rfind_char(s: Seq<char>, c: char) -> int
    decreases s.len(),
{
    if s.len() == 0 {
        -1
    } else if s.last() == c {
        s.len() - 1
    } else {
        rfind_char(s.drop_last(), c)
    }
}

/// Index of the last `a` immediately followed by `b` in `s`, `-1` when absent.
pub open spec fn rfind_pair(s: Seq<char>, a: char, b: char) -> int
    decreases s.len(),
{
    if s.len() < 2 {
        -1
    } else if s[s.len() - 2] == a && s[s.len() - 1] == b {
        s.len() - 2
    } else {
        rfind_pair(s.drop_last(), a, b)
    }
}

/// Index of the first occurrence of `pat` in `s` at or after `i`, `-1` when
/// absent.
pub open spec fn find_from(s: Seq<char>, pat: Seq<char>, i: int) -> int
    decreases s.len() + 1 - i,
{
    if i < 0 || i + pat.len() > s.len() {
        -1
    } else if s.subrange(i, i + pat.len()) == pat {
        i
    } else {
        find_from(s, pat, i + 1)
    }
}

/// Index of the first occurrence of `pat` in `s`, `-1` when absent.
pub open spec fn find_seq(s: Seq<char>, pat: Seq<char>) -> int {
    find_from(s, pat, 0)
}

/// UTF-8 length of one character.
pub open spec fn char_utf8_len(c: char) -> nat {
    let u = c as u32;
    if u < 0x80 {
        1
    } else if u < 0x800 {
        2
    } else if u < 0x10000 {
        3
    } else {
        4
    }
}

/// UTF-8 length of a character sequence (what `str::len` reports).
pub open spec fn utf8_len(s: Seq<char>) -> nat
    decreases s.len(),
{
    if s.len() == 0 {
        0
    } else {
        utf8_len(s.drop_last()) + char_utf8_len(s.last())
    }
}

fn rfind_char_exec(s: &[char], c: char) -> (r: Option<usize>)
    ensures
        match r {
            Some(i) => i as int == rfind_char(s@, c) && i < s.len(),
            None => rfind_char(s@, c) == -1,
        },
{
    let mut last: Option<usize> = None;
    let mut i: usize = 0;
    while i < s.len()
        invariant
            i <= s@.len(),
            match last {
                Some(k) => k as int == rfind_char(s@.take(i as int), c) && k < i,
                None => rfind_char(s@.take(i as int), c) == -1,
            },
        decreases s@.len() - i,
    {
        proof {
            assert(s@.take(i + 1).drop_last() =~= s@.take(i as int));
        }
        if s[i] == c {
            last = Some(i);
        }
        i = i + 1;
    }
    proof {
        assert(s@.take(s@.len() as int) =~= s@);
    }
    last
}

fn rfind_pair_exec(s: &[char], a: char, b: char) -> (r: Option<usize>)
    ensures
        match r {
            Some(i) => i as int == rfind_pair(s@, a, b) && i < s@.len(),
            None => rfind_pair(s@, a, b) == -1,
        },
{
    let mut last: Option<usize> = None;
    let mut i: usize = 0;
    while i < s.len()
        invariant
            i <= s@.len(),
            match last {
                Some(k) => k as int == rfind_pair(s@.take(i as int), a, b) && k < i,
                None => rfind_pair(s@.take(i as int), a, b) == -1,
            },
        decreases s@.len() - i,
    {
        proof {
            assert(s@.take(i + 1).drop_last() =~= s@.take(i as int));
        }
        if i >= 1 && s[i - 1] == a && s[i] == b {
            last = Some(i - 1);
        }
        i = i + 1;
    }
    proof {
        assert(s@.take(s@.len() as int) =~= s@);
    }
    last
}

fn matches_at(s: &[char], pat: &[char], i: usize) -> (r: bool)
    requires
        i + pat.len() <= s.len(),
    ensures
        r == (s@.subrange(i as int, i + pat@.len()) == pat@),
{
    let mut k: usize = 0;
    while k < pat.len()
        invariant
            i + pat.len() <= s.len(),
            k <= pat@.len(),
            forall|j: int| 0 <= j < k ==> s@[i + j] == pat@[j],
        decreases pat@.len() - k,
    {
        if s[i + k] != pat[k] {
            assert(s@.subrange(i as int, i + pat@.len())[k as int] != pat@[k as int]);
            return false;
        }
        k = k + 1;
    }
    assert(s@.subrange(i as int, i + pat@.len()) =~= pat@);
    true
}

/// First occurrence of `pat` in `s`.
pub fn find_seq_exec(s: &[char], pat: &[char]) -> (r: Option<usize>)
    ensures
        match r {
            Some(i) => i as int == find_seq(s@, pat@) && i + pat.len() <= s.len(),
            None => find_seq(s@, pat@) == -1,
        },
{
    if pat.len() > s.len() {
        return None;
    }
    let last = s.len() - pat.len();
    let mut i: usize = 0;
    loop
        invariant
            pat@.len() <= s@.len(),
            last == s@.len() - pat@.len(),
            i <= last,
            find_seq(s@, pat@) == find_from(s@, pat@, i as int),
        decreases last - i,
    {
        if matches_at(s, pat, i) {
            return Some(i);
        }
        if i == last {
            assert(find_from(s@, pat@, i + 1) == -1);
            return None;
        }
        i = i + 1;
    }
}

fn utf8_len_at_least(s: &[char], n: usize) -> (r: bool)
    ensures
        r == (utf8_len(s@) >= n),
{
    if n == 0 {
        return true;
    }
    let mut total: usize = 0;
    let mut i: usize = 0;
    while i < s.len()
        invariant
            i <= s@.len(),
            total as nat == utf8_len(s@.take(i as int)),
            total < n,
        decreases s@.len() - i,
    {
        proof {
            assert(s@.take(i + 1).drop_last() =~= s@.take(i as int));
        }
        let u = s[i] as u32;
        let w: usize = if u < 0x80 {
            1
        } else if u < 0x800 {
            2
        } else if u < 0x10000 {
            3
        } else {
            4
        };
        if w >= n - total {
            proof {
                lemma_utf8_len_monotone(s@, i + 1);
            }
            return true;
        }
        total = total + w;
        i = i + 1;
    }
    proof {
        assert(s@.take(s@.len() as int) =~= s@);
    }
    false
}

proof fn lemma_utf8_len_monotone(s: Seq<char>, i: int)
    requires
        0 <= i <= s.len(),
    ensures
        utf8_len(s.take(i)) <= utf8_len(s),
    decreases s.len() - i,
{
    if i < s.len() {
        lemma_utf8_len_monotone(s, i + 1);
        assert(s.take(i + 1).drop_last() =~= s.take(i));
    } else {
        assert(s.take(i) =~= s);
    }
}

// ---------------------------------------------------------------------------
// Device instance paths
// ---------------------------------------------------------------------------

pub open spec fn win32_file_prefix() -> Seq<char> {
    seq!['\\', '\\', '?', '\\']
}

pub open spec fn win32_device_prefix() -> Seq<char> {
    seq!['\\', '\\', '.', '\\']
}

/// Drops a leading `\\?\` or (failing that) `\\.\`.
pub open spec fn strip_device_prefix(s: Seq<char>) -> Seq<char> {
    if s.len() >= 4 && (s.take(4) == win32_file_prefix() || s.take(4) == win32_device_prefix()) {
        s.skip(4)
    } else {
        s
    }
}

/// Cuts the interface-class suffix: everything from the last `#{`, or else
/// from the last `#` when what follows it contains `-` or is at least 32
/// bytes long (a GUID).
pub open spec fn cut_interface_suffix(s: Seq<char>) -> Seq<char> {
    let p = rfind_pair(s, '#', '{');
    if p >= 0 {
        s.take(p)
    } else {
        let h = rfind_char(s, '#');
        if h >= 0 && (s.skip(h + 1).contains('-') || utf8_len(s.skip(h + 1)) >= 32) {
            s.take(h)
        } else {
            s
        }
    }
}

/// Every `#` becomes `\`.
pub open spec fn replace_hash(s: Seq<char>) -> Seq<char> {
    s.map_values(|c: char| if c == '#' { '\\' } else { c })
}

/// The device instance id of a raw device interface path:
/// `\\?\hid#vid_054c&pid_0ce6#7&...#{guid}` → `HID\VID_054C&PID_0CE6\7&...`.
pub open spec fn spec_normalize_device_instance_path(path: Seq<char>) -> Seq<char> {
    upper_case(replace_hash(cut_interface_suffix(strip_device_prefix(trim(path)))))
}

fn has_prefix(s: &[char], pat: &[char]) -> (r: bool)
    ensures
        r == (s@.len() >= pat@.len() && s@.take(pat@.len() as int) == pat@),
{
    if s.len() < pat.len() {
        return false;
    }
    let r = matches_at(s, pat, 0);
    assert(s@.subrange(0, pat@.len() as int) == s@.take(pat@.len() as int));
    r
}

fn contains_char(s: &[char], c: char) -> (r: bool)
    ensures
        r == s@.contains(c),
{
    let mut i: usize = 0;
    while i < s.len()
        invariant
            i <= s@.len(),
            forall|j: int| 0 <= j < i ==> s@[j] != c,
        decreases s@.len() - i,
    {
        if s[i] == c {
            assert(s@[i as int] == c);
            return true;
        }
        i = i + 1;
    }
    false
}

fn slice_chars(s: &[char], lo: usize, hi: usize) -> (v: Vec<char>)
    requires
        lo <= hi <= s@.len(),
    ensures
        v@ == s@.subrange(lo as int, hi as int),
{
    let mut v: Vec<char> = Vec::new();
    let mut i: usize = lo;
    while i < hi
        invariant
            lo <= i <= hi,
            hi <= s@.len(),
            v@ == s@.subrange(lo as int, i as int),
        decreases hi - i,
    {
        v.push(s[i]);
        i = i + 1;
        assert(v@ =~= s@.subrange(lo as int, i as int));
    }
    v
}

fn replace_hash_exec(s: &[char]) -> (v: Vec<char>)
    ensures
        v@ == replace_hash(s@),
{
    let mut v: Vec<char> = Vec::new();
    let mut i: usize = 0;
    while i < s.len()
        invariant
            i <= s@.len(),
            v@ == replace_hash(s@.take(i as int)),
        decreases s@.len() - i,
    {
        let c = s[i];
        v.push(if c == '#' { '\\' } else { c });
        i = i + 1;
        assert(v@ =~= replace_hash(s@.take(i as int)));
    }
    assert(s@.take(s@.len() as int) =~= s@);
    v
}

/// Normalises a raw HID device interface path to its device instance id.
pub fn normalize_device_instance_path(path: &str) -> (r: String)
    ensures
        r@ == spec_normalize_device_instance_path(path@),
{
    let trimmed = trim_chars(path);
    let file_prefix = vec!['\\', '\\', '?', '\\'];
    let device_prefix = vec!['\\', '\\', '.', '\\'];
    proof {
        assert(file_prefix@ =~= win32_file_prefix());
        assert(device_prefix@ =~= win32_device_prefix());
    }
    let clean = if has_prefix(trimmed.as_slice(), file_prefix.as_slice()) || has_prefix(
        trimmed.as_slice(),
        device_prefix.as_slice(),
    ) {
        slice_chars(trimmed.as_slice(), 4, trimmed.len())
    } else {
        trimmed
    };
    proof {
        assert(clean@ =~= strip_device_prefix(trim(path@)));
    }
    let cut = match rfind_pair_exec(clean.as_slice(), '#', '{') {
        Some(idx) => slice_chars(clean.as_slice(), 0, idx),
        None => match rfind_char_exec(clean.as_slice(), '#') {
            Some(idx) => {
                let tail = slice_chars(clean.as_slice(), idx + 1, clean.len());
                if contains_char(tail.as_slice(), '-') || utf8_len_at_least(tail.as_slice(), 32) {
                    slice_chars(clean.as_slice(), 0, idx)
                } else {
                    clean
                }
            },
            None => clean,
        },
    };
    proof {
        assert(cut@ =~= cut_interface_suffix(clean@));
    }
    let replaced = replace_hash_exec(cut.as_slice());
    let s = string_of(replaced.as_slice());
    to_uppercase(s.as_str())
}

// ---------------------------------------------------------------------------
// All instance ids a physical pad may be registered under
// ---------------------------------------------------------------------------

pub open spec fn col_marker() -> Seq<char> {
    seq!['&', 'C', 'O', 'L']
}

pub open spec fn hid_vid_prefix() -> Seq<char> {
    seq!['H', 'I', 'D', '\\', 'V', 'I', 'D', '_']
}

pub open spec fn usb_prefix() -> Seq<char> {
    seq!['U', 'S', 'B', '\\']
}

/// Two-digit collection number `01`..=`06` for `k` in `0..6`.
pub open spec fn collection_number(k: int) -> Seq<char> {
    seq!['0', seq!['1', '2', '3', '4', '5', '6'][k]]
}

/// Sibling collection ids `&COL01`..=`&COL06` and the collection-less id,
/// when `n` names a HID collection (`...&COLxx\...`).
pub open spec fn collection_ids(n: Seq<char>) -> Seq<Seq<char>> {
    let c = find_seq(n, col_marker());
    let rel = find_seq(n.skip(c), seq!['\\']);
    if c < 0 || rel < 0 {
        Seq::empty()
    } else {
        let prefix = n.take(c);
        let suffix = n.skip(c + rel);
        Seq::new(6, |k: int| prefix + col_marker() + collection_number(k) + suffix).push(
            prefix + suffix,
        )
    }
}

/// The USB parent id of a `HID\VID_...` id.
pub open spec fn usb_ids(n: Seq<char>) -> Seq<Seq<char>> {
    if n.len() >= 8 && n.take(8) == hid_vid_prefix() {
        seq![usb_prefix() + n.skip(4)]
    } else {
        Seq::empty()
    }
}

/// The candidate ids of a normalised id, in order (before de-duplication).
pub open spec fn id_candidates(n: Seq<char>) -> Seq<Seq<char>> {
    if n.len() == 0 {
        Seq::empty()
    } else {
        seq![n] + collection_ids(n) + usb_ids(n)
    }
}

/// Keeps the first occurrence of every element.
pub open spec fn dedup(s: Seq<Seq<char>>) -> Seq<Seq<char>>
    decreases s.len(),
{
    if s.len() == 0 {
        s
    } else {
        let d = dedup(s.drop_last());
        if d.contains(s.last()) {
            d
        } else {
            d.push(s.last())
        }
    }
}

/// Every instance id a raw device path may be blacklisted under.
pub open spec fn spec_extract_all_device_instance_ids(path: Seq<char>) -> Seq<Seq<char>> {
    dedup(id_candidates(spec_normalize_device_instance_path(path)))
}

/// The character sequences held by a list of character vectors.
pub open spec fn views(v: Seq<Vec<char>>) -> Seq<Seq<char>> {
    v.map_values(|x: Vec<char>| x@)
}

fn concat_chars(a: &[char], b: &[char]) -> (v: Vec<char>)
    ensures
        v@ == a@ + b@,
{
    let mut v: Vec<char> = Vec::new();
    let mut i: usize = 0;
    while i < a.len()
        invariant
            i <= a@.len(),
            v@ == a@.take(i as int),
        decreases a@.len() - i,
    {
        v.push(a[i]);
        i = i + 1;
        assert(v@ =~= a@.take(i as int));
    }
    let mut j: usize = 0;
    while j < b.len()
        invariant
            j <= b@.len(),
            i == a@.len(),
            v@ == a@ + b@.take(j as int),
        decreases b@.len() - j,
    {
        v.push(b[j]);
        j = j + 1;
        assert(v@ =~= a@ + b@.take(j as int));
    }
    assert(a@.take(a@.len() as int) =~= a@);
    assert(b@.take(b@.len() as int) =~= b@);
    v
}

fn copy_chars(v: &[char]) -> (r: Vec<char>)
    ensures
        r@ == v@,
{
    slice_chars(v, 0, v.len())
}

fn chars_equal(a: &[char], b: &[char]) -> (r: bool)
    ensures
        r == (a@ == b@),
{
    if a.len() != b.len() {
        return false;
    }
    let mut i: usize = 0;
    while i < a.len()
        invariant
            a@.len() == b@.len(),
            i <= a@.len(),
            forall|j: int| 0 <= j < i ==> a@[j] == b@[j],
        decreases a@.len() - i,
    {
        if a[i] != b[i] {
            return false;
        }
        i = i + 1;
    }
    assert(a@ =~= b@);
    true
}

fn contains_chars(list: &Vec<Vec<char>>, x: &[char]) -> (r: bool)
    ensures
        r == views(list@).contains(x@),
{
    let mut i: usize = 0;
    while i < list.len()
        invariant
            i <= list@.len(),
            forall|j: int| 0 <= j < i ==> views(list@)[j] != x@,
        decreases list@.len() - i,
    {
        if chars_equal(list[i].as_slice(), x) {
            assert(views(list@)[i as int] == x@);
            return true;
        }
        i = i + 1;
    }
    false
}

fn dedup_exec(cands: &Vec<Vec<char>>) -> (out: Vec<Vec<char>>)
    ensures
        views(out@) == dedup(views(cands@)),
{
    let mut out: Vec<Vec<char>> = Vec::new();
    let mut i: usize = 0;
    while i < cands.len()
        invariant
            i <= cands@.len(),
            views(out@) == dedup(views(cands@).take(i as int)),
        decreases cands@.len() - i,
    {
        proof {
            assert(views(cands@).take(i + 1).drop_last() =~= views(cands@).take(i as int));
            assert(views(cands@).take(i + 1).last() == cands@[i as int]@);
        }
        let c = &cands[i];
        if !contains_chars(&out, c.as_slice()) {
            let cc = c.clone();
            out.push(cc);
            assert(views(out@) =~= dedup(views(cands@).take(i + 1)));
        }
        i = i + 1;
    }
    assert(views(cands@).take(cands@.len() as int) =~= views(cands@));
    out
}

/// Every instance id a raw device path may be blacklisted under: the
/// normalised id, its sibling HID collections `&COL01`..`&COL06` and the
/// collection-less id, and its `USB\` parent — each once, in that order.
pub fn extract_all_device_instance_ids(path: &str) -> (ids: Vec<String>)
    ensures
        ids.deep_view() == spec_extract_all_device_instance_ids(path@),
{
    let norm = normalize_device_instance_path(path);
    let n = chars_of(norm.as_str());
    let ghost nv = n@;
    let mut cands: Vec<Vec<char>> = Vec::new();
    if n.len() > 0 {
        cands.push(copy_chars(n.as_slice()));
        let marker = vec!['&', 'C', 'O', 'L'];
        let backslash = vec!['\\'];
        proof {
            assert(marker@ =~= col_marker());
            assert(backslash@ =~= seq!['\\']);
        }
        let mut col_part: Vec<Vec<char>> = Vec::new();
        match find_seq_exec(n.as_slice(), marker.as_slice()) {
            Some(c) => {
                let from_c = slice_chars(n.as_slice(), c, n.len());
                assert(from_c@ =~= nv.skip(c as int));
                match find_seq_exec(from_c.as_slice(), backslash.as_slice()) {
                    Some(rel) => {
                        let prefix = slice_chars(n.as_slice(), 0, c);
                        let suffix = slice_chars(n.as_slice(), c + rel, n.len());
                        assert(prefix@ =~= nv.take(c as int));
                        assert(suffix@ =~= nv.skip(c + rel));
                        let head = concat_chars(prefix.as_slice(), marker.as_slice());
                        let digits = vec!['1', '2', '3', '4', '5', '6'];
                        let mut k: usize = 0;
                        while k < 6
                            invariant
                                k <= 6,
                                digits@ == seq!['1', '2', '3', '4', '5', '6'],
                                head@ == nv.take(c as int) + col_marker(),
                                suffix@ == nv.skip(c + rel),
                                views(col_part@) == Seq::new(
                                    k as nat,
                                    |j: int|
                                        nv.take(c as int) + col_marker() + collection_number(j)
                                            + nv.skip(c + rel),
                                ),
                            decreases 6 - k,
                        {
                            let num = vec!['0', digits[k]];
                            assert(num@ =~= collection_number(k as int));
                            let with_num = concat_chars(head.as_slice(), num.as_slice());
                            let id = concat_chars(with_num.as_slice(), suffix.as_slice());
                            let ghost before = views(col_part@);
                            col_part.push(id);
                            assert(views(col_part@) =~= before.push(id@));
                            k = k + 1;
                            assert(views(col_part@) =~= Seq::new(
                                k as nat,
                                |j: int|
                                    nv.take(c as int) + col_marker() + collection_number(j)
                                        + nv.skip(c + rel),
                            ));
                        }
                        col_part.push(concat_chars(prefix.as_slice(), suffix.as_slice()));
                    },
                    None => {},
                }
            },
            None => {},
        }
        assert(views(col_part@) =~= collection_ids(nv));
        let mut usb_part: Vec<Vec<char>> = Vec::new();
        let hid_vid = vec!['H', 'I', 'D', '\\', 'V', 'I', 'D', '_'];
        assert(hid_vid@ =~= hid_vid_prefix());
        if has_prefix(n.as_slice(), hid_vid.as_slice()) {
            let usb = vec!['U', 'S', 'B', '\\'];
            assert(usb@ =~= usb_prefix());
            let rest = slice_chars(n.as_slice(), 4, n.len());
            assert(rest@ =~= nv.skip(4));
            usb_part.push(concat_chars(usb.as_slice(), rest.as_slice()));
        }
        assert(views(usb_part@) =~= usb_ids(nv));
        let mut k: usize = 0;
        while k < col_part.len()
            invariant
                k <= col_part@.len(),
                views(cands@) == seq![nv] + views(col_part@).take(k as int),
            decreases col_part@.len() - k,
        {
            let item = copy_chars(col_part[k].as_slice());
            let ghost before = views(cands@);
            cands.push(item);
            assert(views(cands@) =~= before.push(views(col_part@)[k as int]));
            k = k + 1;
            assert(views(cands@) =~= seq![nv] + views(col_part@).take(k as int));
        }
        assert(views(col_part@).take(col_part@.len() as int) =~= views(col_part@));
        if usb_part.len() > 0 {
            cands.push(copy_chars(usb_part[0].as_slice()));
        }
        assert(views(cands@) =~= id_candidates(nv));
    } else {
        assert(views(cands@) =~= id_candidates(nv));
    }
    let uniq = dedup_exec(&cands);
    let mut ids: Vec<String> = Vec::new();
    let mut i: usize = 0;
    while i < uniq.len()
        invariant
            i <= uniq@.len(),
            ids@.len() == i,
            ids.deep_view() == views(uniq@).take(i as int),
        decreases uniq@.len() - i,
    {
        let s = string_of(uniq[i].as_slice());
        let ghost before = ids.deep_view();
        ids.push(s);
        i = i + 1;
        assert forall|j: int| 0 <= j < i implies ids.deep_view()[j] == views(uniq@).take(i as int)[j] by {
            if j < i - 1 {
                assert(ids.deep_view()[j] == before[j]);
            }
        }
        assert(ids.deep_view() =~= views(uniq@).take(i as int));
    }
    assert(views(uniq@).take(uniq@.len() as int) =~= views(uniq@));
    ids
}

// ---------------------------------------------------------------------------
// REG_MULTI_SZ (UTF-16, NUL-separated, double-NUL terminated) lists
// ---------------------------------------------------------------------------

/// UTF-16 code units of one character.
pub open spec fn utf16_units(c: char) -> Seq<u16> {
    let u = c as u32;
    if u < 0x10000 {
        seq![u as u16]
    } else {
        seq![(0xD800 + (u - 0x10000) / 1024) as u16, (0xDC00 + (u - 0x10000) % 1024) as u16]
    }
}

/// UTF-16 encoding of a character sequence (`str::encode_utf16`).
pub open spec fn utf16_encode(s: Seq<char>) -> Seq<u16>
    decreases s.len(),
{
    if s.len() == 0 {
        Seq::empty()
    } else {
        utf16_encode(s.drop_last()) + utf16_units(s.last())
    }
}

/// Lossy UTF-16 decoding (`String::from_utf16_lossy`): surrogate pairs are
/// combined, every unpaired surrogate becomes U+FFFD.
pub open spec fn utf16_decode(u: Seq<u16>) -> Seq<char>
    decreases u.len(),
{
    if u.len() == 0 {
        Seq::empty()
    } else if u[0] < 0xD800 || u[0] > 0xDFFF {
        seq![u[0] as char] + utf16_decode(u.drop_first())
    } else if u[0] <= 0xDBFF && u.len() >= 2 && 0xDC00 <= u[1] && u[1] <= 0xDFFF {
        seq![(0x10000 + (u[0] - 0xD800) * 1024 + (u[1] - 0xDC00)) as char] + utf16_decode(
            u.skip(2),
        )
    } else {
        seq!['\u{FFFD}'] + utf16_decode(u.drop_first())
    }
}

/// A Unicode scalar value: not a surrogate and at most U+10FFFF.
pub open spec fn is_scalar_value(v: u32) -> bool {
    v < 0xD800 || (0xE000 <= v && v <= 0x10FFFF)
}

/// `char::from_u32`: the character with code point `v`, or `None` for a
/// surrogate or a value above U+10FFFF.
#[verifier::external_body]
fn char_from_u32(v: u32) -> (c: Option<char>)
    ensures
        is_scalar_value(v) ==> c == Some(v as char),
        !is_scalar_value(v) ==> c is None,
{
    char::from_u32(v)
}

/// Lossy UTF-16 decoding, as `String::from_utf16_lossy` does it: surrogate
/// pairs are combined, every unpaired surrogate becomes U+FFFD.
pub(crate) fn string_from_utf16_lossy(units: &[u16]) -> (s: String)
    ensures
        s@ == utf16_decode(units@),
{
    let ghost u = units@;
    let mut out: Vec<char> = Vec::new();
    let mut i: usize = 0;
    proof {
        assert(u.skip(0) =~= u);
        assert(out@ + utf16_decode(u) =~= utf16_decode(u));
    }
    while i < units.len()
        invariant
            u == units@,
            i <= u.len(),
            out@ + utf16_decode(u.skip(i as int)) == utf16_decode(u),
        decreases u.len() - i,
    {
        let ghost rest = u.skip(i as int);
        let w = units[i];
        assert(rest[0] == w);
        if w < 0xD800 || w > 0xDFFF {
            let c = char_from_u32(w as u32);
            assert(rest.drop_first() =~= u.skip(i + 1));
            out.push(c.unwrap());
            i = i + 1;
        } else if w <= 0xDBFF && i + 1 < units.len() && 0xDC00 <= units[i + 1] && units[i + 1] <= 0xDFFF {
            let lo = units[i + 1];
            assert(rest[1] == lo);
            let v: u32 = 0x10000 + (w as u32 - 0xD800) * 1024 + (lo as u32 - 0xDC00);
            let c = char_from_u32(v);
            assert(rest.skip(2) =~= u.skip(i + 2));
            out.push(c.unwrap());
            i = i + 2;
        } else {
            assert(rest.drop_first() =~= u.skip(i + 1));
            out.push('\u{FFFD}');
            i = i + 1;
        }
        proof {
            assert(out@ + utf16_decode(u.skip(i as int)) =~= utf16_decode(u));
        }
    }
    proof {
        assert(u.skip(i as int) =~= Seq::<u16>::empty());
        assert(out@ + utf16_decode(u.skip(i as int)) =~= out@);
    }
    string_of(out.as_slice())
}

/// The list entry of one string: its trimmed UTF-16 units and a NUL, or
/// nothing when it trims to empty.
pub open spec fn multi_sz_entry(s: Seq<char>) -> Seq<u16> {
    let t = trim(s);
    if t.len() == 0 {
        Seq::empty()
    } else {
        utf16_encode(t).push(0u16)
    }
}

pub open spec fn multi_sz_body(l: Seq<Seq<char>>) -> Seq<u16>
    decreases l.len(),
{
    if l.len() == 0 {
        Seq::empty()
    } else {
        multi_sz_body(l.drop_last()) + multi_sz_entry(l.last())
    }
}

/// The `REG_MULTI_SZ` buffer of a string list: `[0, 0]` for an empty list,
/// else every non-blank trimmed entry NUL-terminated, then a final NUL.
pub open spec fn spec_string_list_to_multi_sz(l: Seq<Seq<char>>) -> Seq<u16> {
    if l.len() == 0 {
        seq![0u16, 0u16]
    } else {
        multi_sz_body(l).push(0u16)
    }
}

/// The unit groups of a `REG_MULTI_SZ` buffer, `cur` being the group read so
/// far: a NUL ends a group, a NUL right after a group end (or at the start)
/// ends the list, and a trailing unterminated group still counts.
pub open spec fn multi_sz_groups(buf: Seq<u16>, cur: Seq<u16>) -> Seq<Seq<u16>>
    decreases buf.len(),
{
    if buf.len() == 0 {
        if cur.len() > 0 {
            seq![cur]
        } else {
            Seq::empty()
        }
    } else if buf[0] == 0 {
        if cur.len() == 0 {
            Seq::empty()
        } else {
            seq![cur] + multi_sz_groups(buf.drop_first(), Seq::empty())
        }
    } else {
        multi_sz_groups(buf.drop_first(), cur.push(buf[0]))
    }
}

/// The strings of a `REG_MULTI_SZ` buffer.
pub open spec fn spec_multi_sz_to_string_list(buf: Seq<u16>) -> Seq<Seq<char>> {
    multi_sz_groups(buf, Seq::empty()).map_values(|g: Seq<u16>| utf16_decode(g))
}

/// The trimmed, non-blank entries of a list (what survives an encode /
/// decode round trip).
pub open spec fn kept_entries(l: Seq<Seq<char>>) -> Seq<Seq<char>>
    decreases l.len(),
{
    if l.len() == 0 {
        Seq::empty()
    } else {
        let k = kept_entries(l.drop_last());
        if trim(l.last()).len() == 0 {
            k
        } else {
            k.push(trim(l.last()))
        }
    }
}

fn push_utf16(out: &mut Vec<u16>, c: char)
    ensures
        final(out)@ == old(out)@ + utf16_units(c),
{
    let u = c as u32;
    if u < 0x10000 {
        out.push(u as u16);
    } else {
        let v = u - 0x10000;
        out.push((0xD800 + v / 1024) as u16);
        out.push((0xDC00 + v % 1024) as u16);
    }
    assert(final(out)@ =~= old(out)@ + utf16_units(c));
}

/// Encodes a string list as a `REG_MULTI_SZ` buffer (entries trimmed, blank
/// entries skipped).
pub fn string_list_to_multi_sz(strings: &[String]) -> (buf: Vec<u16>)
    ensures
        buf@ == spec_string_list_to_multi_sz(strings.deep_view()),
{
    let ghost l = strings.deep_view();
    let mut buffer: Vec<u16> = Vec::new();
    if strings.len() == 0 {
        buffer.push(0);
        buffer.push(0);
        assert(buffer@ =~= seq![0u16, 0u16]);
        return buffer;
    }
    let mut i: usize = 0;
    while i < strings.len()
        invariant
            i <= strings@.len(),
            l == strings.deep_view(),
            buffer@ == multi_sz_body(l.take(i as int)),
        decreases strings@.len() - i,
    {
        proof {
            assert(l.take(i + 1).drop_last() =~= l.take(i as int));
            assert(l.take(i + 1).last() == strings@[i as int]@);
        }
        let t = trim_chars(strings[i].as_str());
        if t.len() > 0 {
            let ghost start = buffer@;
            let mut k: usize = 0;
            while k < t.len()
                invariant
                    k <= t@.len(),
                    buffer@ == start + utf16_encode(t@.take(k as int)),
                decreases t@.len() - k,
            {
                proof {
                    assert(t@.take(k + 1).drop_last() =~= t@.take(k as int));
                }
                push_utf16(&mut buffer, t[k]);
                k = k + 1;
                assert(buffer@ =~= start + utf16_encode(t@.take(k as int)));
            }
            buffer.push(0);
            assert(t@.take(t@.len() as int) =~= t@);
            assert(buffer@ =~= multi_sz_body(l.take(i + 1)));
        } else {
            assert(buffer@ =~= multi_sz_body(l.take(i + 1)));
        }
        i = i + 1;
    }
    assert(l.take(strings@.len() as int) =~= l);
    buffer.push(0);
    buffer
}

/// Decodes a `REG_MULTI_SZ` buffer into its strings.
pub fn multi_sz_to_string_list(buffer: &[u16]) -> (l: Vec<String>)
    ensures
        l.deep_view() == spec_multi_sz_to_string_list(buffer@),
{
    let ghost all = buffer@;
    let mut result: Vec<String> = Vec::new();
    let ghost mut groups: Seq<Seq<u16>> = Seq::empty();
    let mut current: Vec<u16> = Vec::new();
    let mut stop = false;
    let mut i: usize = 0;
    assert(all.skip(0) =~= all);
    while i < buffer.len() && !stop
        invariant
            i <= buffer@.len(),
            all == buffer@,
            multi_sz_groups(all, Seq::empty()) == groups + multi_sz_groups(
                all.skip(i as int),
                current@,
            ),
            stop ==> multi_sz_groups(all.skip(i as int), current@) == Seq::<Seq<u16>>::empty(),
            result@.len() == groups.len(),
            result.deep_view() == groups.map_values(|g: Seq<u16>| utf16_decode(g)),
        decreases buffer@.len() - i, if stop { 0int } else { 1int },
    {
        let ch = buffer[i];
        proof {
            assert(all.skip(i as int).drop_first() =~= all.skip(i + 1));
            assert(all.skip(i as int)[0] == ch);
        }
        if ch == 0 {
            if current.len() == 0 {
                stop = true;
            } else {
                let s = string_from_utf16_lossy(current.as_slice());
                let ghost before = result.deep_view();
                result.push(s);
                proof {
                    assert(groups + multi_sz_groups(all.skip(i as int), current@) =~= groups.push(
                        current@,
                    ) + multi_sz_groups(all.skip(i + 1), Seq::empty()));
                    groups = groups.push(current@);
                    assert forall|j: int| 0 <= j < result@.len() implies result.deep_view()[j]
                        == groups.map_values(|g: Seq<u16>| utf16_decode(g))[j] by {
                        if j < result@.len() - 1 {
                            assert(result.deep_view()[j] == before[j]);
                        }
                    }
                    assert(result.deep_view() =~= groups.map_values(
                        |g: Seq<u16>| utf16_decode(g),
                    ));
                }
                current = Vec::new();
                i = i + 1;
            }
        } else {
            current.push(ch);
            i = i + 1;
        }
    }
    if stop {
        assert(groups + Seq::<Seq<u16>>::empty() =~= groups);
    } else {
        assert(all.skip(i as int) =~= Seq::<u16>::empty());
        if current.len() > 0 {
            let s = string_from_utf16_lossy(current.as_slice());
            let ghost before = result.deep_view();
            result.push(s);
            proof {
                assert(groups + multi_sz_groups(all.skip(i as int), current@) =~= groups.push(
                    current@,
                ));
                groups = groups.push(current@);
                assert forall|j: int| 0 <= j < result@.len() implies result.deep_view()[j]
                    == groups.map_values(|g: Seq<u16>| utf16_decode(g))[j] by {
                    if j < result@.len() - 1 {
                        assert(result.deep_view()[j] == before[j]);
                    }
                }
                assert(result.deep_view() =~= groups.map_values(|g: Seq<u16>| utf16_decode(g)));
            }
        } else {
            assert(groups + multi_sz_groups(all.skip(i as int), current@) =~= groups);
        }
    }
    result
}

// ---------------------------------------------------------------------------
// Round trip of the REG_MULTI_SZ coding
// ---------------------------------------------------------------------------

/// Characters are Unicode scalar values.
proof fn lemma_char_range(c: char)
    ensures
        (c as u32) <= 0x10FFFF,
        !(0xD800 <= (c as u32) && (c as u32) <= 0xDFFF),
{
}

proof fn lemma_encode_front(c: char, t: Seq<char>)
    ensures
        utf16_encode(seq![c] + t) == utf16_units(c) + utf16_encode(t),
    decreases t.len(),
{
    let ct = seq![c] + t;
    if t.len() == 0 {
        assert(ct.drop_last() =~= Seq::<char>::empty());
        assert(ct.last() == c);
        assert(utf16_encode(ct) == utf16_encode(ct.drop_last()) + utf16_units(ct.last()));
        assert(utf16_encode(Seq::<char>::empty()) =~= Seq::<u16>::empty());
        assert(Seq::<u16>::empty() + utf16_units(c) =~= utf16_units(c));
        assert(utf16_units(c) + utf16_encode(t) =~= utf16_units(c));
    } else {
        lemma_encode_front(c, t.drop_last());
        assert(ct.drop_last() =~= seq![c] + t.drop_last());
        assert(ct.last() == t.last());
        assert(utf16_encode(ct) == utf16_encode(ct.drop_last()) + utf16_units(ct.last()));
        assert(utf16_encode(t) == utf16_encode(t.drop_last()) + utf16_units(t.last()));
        assert(utf16_units(c) + utf16_encode(t.drop_last()) + utf16_units(t.last()) =~= utf16_units(
            c,
        ) + (utf16_encode(t.drop_last()) + utf16_units(t.last())));
    }
}

proof fn lemma_decode_units(c: char, rest: Seq<u16>)
    ensures
        utf16_decode(utf16_units(c) + rest) == seq![c] + utf16_decode(rest),
{
    let u = utf16_units(c) + rest;
    let v = c as u32;
    if v < 0x10000 {
        assert(!(0xD800 <= v && v <= 0xDFFF));
        assert(u[0] == v as u16);
        assert(u.drop_first() =~= rest);
        assert((u[0] as char) == c);
    } else {
        let w = v - 0x10000;
        assert(u[0] == (0xD800 + w / 1024) as u16);
        assert(u[1] == (0xDC00 + w % 1024) as u16);
        assert(u.skip(2) =~= rest);
        assert(0x10000 + (u[0] - 0xD800) * 1024 + (u[1] - 0xDC00) == v) by (nonlinear_arith)
            requires
                u[0] == 0xD800 + w / 1024,
                u[1] == 0xDC00 + w % 1024,
                w == v - 0x10000,
                0 <= w,
        ;
    }
}

/// Decoding a UTF-16 encoding gives back the characters.
pub proof fn lemma_utf16_round_trip(t: Seq<char>)
    ensures
        utf16_decode(utf16_encode(t)) == t,
    decreases t.len(),
{
    if t.len() > 0 {
        let c = t[0];
        let rest = t.drop_first();
        assert(t =~= seq![c] + rest);
        lemma_encode_front(c, rest);
        lemma_decode_units(c, utf16_encode(rest));
        lemma_utf16_round_trip(rest);
    } else {
        assert(utf16_encode(t) =~= Seq::<u16>::empty());
    }
}

/// No character of `t` is NUL.
pub open spec fn no_nul(t: Seq<char>) -> bool {
    forall|i: int| 0 <= i < t.len() ==> (#[trigger] t[i] as u32) != 0
}

proof fn lemma_encode_no_nul(t: Seq<char>)
    requires
        no_nul(t),
    ensures
        forall|i: int| 0 <= i < utf16_encode(t).len() ==> utf16_encode(t)[i] != 0,
        t.len() > 0 ==> utf16_encode(t).len() > 0,
    decreases t.len(),
{
    if t.len() > 0 {
        let p = t.drop_last();
        assert(no_nul(p)) by {
            assert forall|k: int| 0 <= k < p.len() implies (p[k] as u32) != 0 by {
                assert(p[k] == t[k]);
            }
        }
        lemma_encode_no_nul(p);
        let c = t.last();
        assert(t[t.len() - 1] == c);
        assert((t[t.len() - 1] as u32) != 0);
        lemma_char_range(c);
        let e = utf16_encode(t);
        assert(e =~= utf16_encode(p) + utf16_units(c));
        assert forall|i: int| 0 <= i < e.len() implies e[i] != 0 by {
            if i >= utf16_encode(p).len() {
                assert(e[i] == utf16_units(c)[i - utf16_encode(p).len()]);
                let v = c as u32;
                if v < 0x10000 {
                    assert(utf16_units(c)[0] == v as u16);
                    assert((v as u16) as u32 == v);
                } else {
                    assert((v - 0x10000) / 1024 < 1024);
                    assert(utf16_units(c)[0] == (0xD800 + (v - 0x10000) / 1024) as u16);
                    assert(utf16_units(c)[1] == (0xDC00 + (v - 0x10000) % 1024) as u16);
                }
            } else {
                assert(e[i] == utf16_encode(p)[i]);
            }
        }
    }
}

proof fn lemma_groups_nonzero_prefix(u: Seq<u16>, rest: Seq<u16>, cur: Seq<u16>)
    requires
        forall|i: int| 0 <= i < u.len() ==> u[i] != 0,
    ensures
        multi_sz_groups(u + rest, cur) == multi_sz_groups(rest, cur + u),
    decreases u.len(),
{
    if u.len() == 0 {
        assert(u + rest =~= rest);
        assert(cur + u =~= cur);
    } else {
        assert((u + rest)[0] == u[0]);
        assert((u + rest).drop_first() =~= u.drop_first() + rest);
        assert(cur.push(u[0]) + u.drop_first() =~= cur + u);
        lemma_groups_nonzero_prefix(u.drop_first(), rest, cur.push(u[0]));
    }
}

proof fn lemma_body_front(l: Seq<Seq<char>>)
    requires
        l.len() > 0,
    ensures
        multi_sz_body(l) == multi_sz_entry(l[0]) + multi_sz_body(l.drop_first()),
    decreases l.len(),
{
    if l.len() == 1 {
        assert(l.drop_last() =~= Seq::<Seq<char>>::empty());
        assert(l.drop_first() =~= Seq::<Seq<char>>::empty());
        assert(multi_sz_entry(l[0]) + Seq::<u16>::empty() =~= multi_sz_entry(l[0]));
        assert(Seq::<u16>::empty() + multi_sz_entry(l[0]) =~= multi_sz_entry(l[0]));
    } else {
        lemma_body_front(l.drop_last());
        assert(l.drop_last().drop_first() =~= l.drop_first().drop_last());
        assert(l.drop_first().last() == l.last());
        assert(l.drop_last()[0] == l[0]);
        assert(multi_sz_entry(l[0]) + multi_sz_body(l.drop_first().drop_last()) + multi_sz_entry(
            l.last(),
        ) =~= multi_sz_entry(l[0]) + (multi_sz_body(l.drop_first().drop_last()) + multi_sz_entry(
            l.last(),
        )));
    }
}

proof fn lemma_kept_front(l: Seq<Seq<char>>)
    requires
        l.len() > 0,
    ensures
        kept_entries(l) == (if trim(l[0]).len() == 0 {
            Seq::<Seq<char>>::empty()
        } else {
            seq![trim(l[0])]
        }) + kept_entries(l.drop_first()),
    decreases l.len(),
{
    let head = if trim(l[0]).len() == 0 {
        Seq::<Seq<char>>::empty()
    } else {
        seq![trim(l[0])]
    };
    if l.len() == 1 {
        assert(l.drop_last() =~= Seq::<Seq<char>>::empty());
        assert(l.drop_first() =~= Seq::<Seq<char>>::empty());
        assert(head + Seq::<Seq<char>>::empty() =~= head);
        assert(Seq::<Seq<char>>::empty().push(trim(l[0])) =~= seq![trim(l[0])]);
    } else {
        lemma_kept_front(l.drop_last());
        assert(l.drop_last().drop_first() =~= l.drop_first().drop_last());
        assert(l.drop_first().last() == l.last());
        assert(l.drop_last()[0] == l[0]);
        let k = kept_entries(l.drop_first().drop_last());
        assert((head + k).push(trim(l.last())) =~= head + k.push(trim(l.last())));
    }
}

proof fn lemma_groups_of_body(l: Seq<Seq<char>>)
    requires
        forall|i: int| 0 <= i < l.len() ==> no_nul(trim(#[trigger] l[i])),
    ensures
        multi_sz_groups(multi_sz_body(l).push(0u16), Seq::empty()) == kept_entries(l).map_values(
            |t: Seq<char>| utf16_encode(t),
        ),
    decreases l.len(),
{
    if l.len() == 0 {
        assert(multi_sz_body(l).push(0u16) =~= seq![0u16]);
        assert(kept_entries(l).map_values(|t: Seq<char>| utf16_encode(t)) =~= Seq::<
            Seq<u16>,
        >::empty());
    } else {
        let rest = l.drop_first();
        assert forall|i: int| 0 <= i < rest.len() implies no_nul(trim(#[trigger] rest[i])) by {
            assert(rest[i] == l[i + 1]);
        }
        lemma_groups_of_body(rest);
        lemma_body_front(l);
        lemma_kept_front(l);
        let t = trim(l[0]);
        let tail = multi_sz_body(rest).push(0u16);
        assert(multi_sz_body(l).push(0u16) =~= multi_sz_entry(l[0]) + tail);
        if t.len() == 0 {
            assert(multi_sz_entry(l[0]) + tail =~= tail);
            assert(kept_entries(l) =~= kept_entries(rest));
        } else {
            assert(no_nul(t));
            lemma_encode_no_nul(t);
            let e = utf16_encode(t);
            assert(multi_sz_entry(l[0]) + tail =~= e + (seq![0u16] + tail));
            lemma_groups_nonzero_prefix(e, seq![0u16] + tail, Seq::empty());
            assert(Seq::<u16>::empty() + e =~= e);
            assert((seq![0u16] + tail)[0] == 0u16);
            assert((seq![0u16] + tail).drop_first() =~= tail);
            assert(kept_entries(l) =~= seq![t] + kept_entries(rest));
            assert(kept_entries(l).map_values(|t: Seq<char>| utf16_encode(t)) =~= seq![e]
                + kept_entries(rest).map_values(|t: Seq<char>| utf16_encode(t)));
        }
    }
}

/// Decoding an encoded string list gives back exactly its trimmed, non-blank
/// entries, in order — for entries that hold no NUL character.
pub proof fn lemma_multi_sz_round_trip(l: Seq<Seq<char>>)
    requires
        forall|i: int| 0 <= i < l.len() ==> no_nul(trim(#[trigger] l[i])),
    ensures
        spec_multi_sz_to_string_list(spec_string_list_to_multi_sz(l)) == kept_entries(l),
{
    if l.len() == 0 {
        let b = seq![0u16, 0u16];
        assert(b[0] == 0u16);
        assert(multi_sz_groups(b, Seq::empty()) =~= Seq::<Seq<u16>>::empty());
        assert(spec_multi_sz_to_string_list(b) =~= Seq::<Seq<char>>::empty());
        assert(kept_entries(l) =~= Seq::<Seq<char>>::empty());
    } else {
        lemma_groups_of_body(l);
        let k = kept_entries(l);
        let g = k.map_values(|t: Seq<char>| utf16_encode(t));
        assert forall|i: int| 0 <= i < k.len() implies utf16_decode(g[i]) == k[i] by {
            lemma_utf16_round_trip(k[i]);
        }
        assert(g.map_values(|e: Seq<u16>| utf16_decode(e)) =~= k);
    }
}

// ---------------------------------------------------------------------------
// Driver parameters: blacklist, whitelist and the active flag
// ---------------------------------------------------------------------------

/// The HidHide driver's parameters (the `HidHide\Parameters` registry key):
/// whether hiding is active, the blacklisted device instance paths and the
/// whitelisted application image names.
pub struct HidHideConfig {
    pub active: bool,
    pub blacklist: Vec<String>,
    pub whitelist: Vec<String>,
}

/// What the UI is shown about the driver.
pub struct HidHideStatus {
    pub installed: bool,
    pub active: bool,
    pub whitelisted: bool,
    pub hidden_devices: Vec<String>,
    pub app_path: String,
}

/// Some entry of `l` equals `x` up to ASCII case.
pub open spec fn contains_ignore_case(l: Seq<Seq<char>>, x: Seq<char>) -> bool {
    exists|i: int| 0 <= i < l.len() && eq_ignore_ascii_case(#[trigger] l[i], x)
}

/// `l` with every id of `ids` appended that is not yet present (up to ASCII
/// case), in order.
pub open spec fn add_missing(l: Seq<Seq<char>>, ids: Seq<Seq<char>>) -> Seq<Seq<char>>
    decreases ids.len(),
{
    if ids.len() == 0 {
        l
    } else {
        let m = add_missing(l, ids.drop_last());
        if contains_ignore_case(m, ids.last()) {
            m
        } else {
            m.push(ids.last())
        }
    }
}

/// An entry survives un-hiding when it matches none of the ids nor the raw
/// path (up to ASCII case).
pub open spec fn survives_unhide(p: Seq<char>, ids: Seq<Seq<char>>, raw: Seq<char>) -> bool {
    !contains_ignore_case(ids, p) && !eq_ignore_ascii_case(p, raw)
}

/// The entries of `l` that survive un-hiding, in order.
pub open spec fn unhide_filter(l: Seq<Seq<char>>, ids: Seq<Seq<char>>, raw: Seq<char>) -> Seq<
    Seq<char>,
>
    decreases l.len(),
{
    if l.len() == 0 {
        l
    } else {
        let f = unhide_filter(l.drop_last(), ids, raw);
        if survives_unhide(l.last(), ids, raw) {
            f.push(l.last())
        } else {
            f
        }
    }
}

fn string_copy(s: &String) -> (r: String)
    ensures
        r@ == s@,
{
    String::from_str(s.as_str())
}

fn str_list_contains_ignore_case(l: &Vec<String>, x: &[char]) -> (r: bool)
    ensures
        r == contains_ignore_case(l.deep_view(), x@),
{
    let mut i: usize = 0;
    while i < l.len()
        invariant
            i <= l@.len(),
            forall|j: int| 0 <= j < i ==> !eq_ignore_ascii_case(#[trigger] l.deep_view()[j], x@),
        decreases l@.len() - i,
    {
        let c = chars_of(l[i].as_str());
        if chars_eq_ignore_ascii_case(c.as_slice(), x) {
            assert(eq_ignore_ascii_case(l.deep_view()[i as int], x@));
            return true;
        }
        i = i + 1;
    }
    false
}

/// Hides a physical pad: blacklists every instance id its raw path may be
/// registered under (skipping ids already listed, up to ASCII case) and
/// turns hiding on. A path with no instance id is refused and nothing
/// changes.
pub fn hide_device(cfg: &mut HidHideConfig, raw_path: &str) -> (r: Result<(), String>)
    ensures
        ({
            let ids = spec_extract_all_device_instance_ids(raw_path@);
            &&& ids.len() == 0 ==> r is Err && r->Err_0@ == "Invalid device path"@
                && final(cfg).blacklist.deep_view() == old(cfg).blacklist.deep_view()
                && final(cfg).active == old(cfg).active
            &&& ids.len() > 0 ==> r is Ok && final(cfg).blacklist.deep_view() == add_missing(
                old(cfg).blacklist.deep_view(),
                ids,
            ) && final(cfg).active
        }),
        final(cfg).whitelist.deep_view() == old(cfg).whitelist.deep_view(),
{
    let ids = extract_all_device_instance_ids(raw_path);
    if ids.len() == 0 {
        return Err(String::from_str("Invalid device path"));
    }
    let ghost start = cfg.blacklist.deep_view();
    let mut k: usize = 0;
    while k < ids.len()
        invariant
            k <= ids@.len(),
            cfg.blacklist.deep_view() == add_missing(start, ids.deep_view().take(k as int)),
            cfg.whitelist.deep_view() == old(cfg).whitelist.deep_view(),
        decreases ids@.len() - k,
    {
        proof {
            assert(ids.deep_view().take(k + 1).drop_last() =~= ids.deep_view().take(k as int));
            assert(ids.deep_view().take(k + 1).last() == ids@[k as int]@);
        }
        let id_chars = chars_of(ids[k].as_str());
        if !str_list_contains_ignore_case(&cfg.blacklist, id_chars.as_slice()) {
            let copy = string_copy(&ids[k]);
            let ghost before = cfg.blacklist.deep_view();
            cfg.blacklist.push(copy);
            proof {
                assert forall|j: int| 0 <= j < cfg.blacklist@.len() implies cfg.blacklist.deep_view()[j]
                    == before.push(ids@[k as int]@)[j] by {
                    if j < before.len() {
                        assert(cfg.blacklist.deep_view()[j] == before[j]);
                    }
                }
                assert(cfg.blacklist.deep_view() =~= before.push(ids@[k as int]@));
            }
        }
        k = k + 1;
    }
    assert(ids.deep_view().take(ids@.len() as int) =~= ids.deep_view());
    cfg.active = true;
    Ok(())
}

/// Un-hides a physical pad: drops every blacklist entry equal (up to ASCII
/// case) to one of the pad's instance ids or to the raw path itself.
pub fn unhide_device(cfg: &mut HidHideConfig, raw_path: &str) -> (r: Result<(), String>)
    ensures
        r is Ok,
        final(cfg).blacklist.deep_view() == unhide_filter(
            old(cfg).blacklist.deep_view(),
            spec_extract_all_device_instance_ids(raw_path@),
            raw_path@,
        ),
        final(cfg).active == old(cfg).active,
        final(cfg).whitelist.deep_view() == old(cfg).whitelist.deep_view(),
{
    let ids = extract_all_device_instance_ids(raw_path);
    let raw = chars_of(raw_path);
    let ghost idv = ids.deep_view();
    let ghost old_list = cfg.blacklist.deep_view();
    let mut kept: Vec<String> = Vec::new();
    let mut i: usize = 0;
    while i < cfg.blacklist.len()
        invariant
            i <= cfg.blacklist@.len(),
            cfg.blacklist.deep_view() == old_list,
            idv == ids.deep_view(),
            raw@ == raw_path@,
            kept.deep_view() == unhide_filter(old_list.take(i as int), idv, raw_path@),
        decreases cfg.blacklist@.len() - i,
    {
        proof {
            assert(old_list.take(i + 1).drop_last() =~= old_list.take(i as int));
            assert(old_list.take(i + 1).last() == cfg.blacklist@[i as int]@);
        }
        let p = chars_of(cfg.blacklist[i].as_str());
        let mut matched = false;
        let mut j: usize = 0;
        while j < ids.len()
            invariant
                j <= ids@.len(),
                idv == ids.deep_view(),
                matched == contains_ignore_case(idv.take(j as int), p@),
            decreases ids@.len() - j,
        {
            let id = chars_of(ids[j].as_str());
            let m = chars_eq_ignore_ascii_case(id.as_slice(), p.as_slice());
            proof {
                assert(idv.take(j + 1)[j as int] == idv[j as int]);
                if matched {
                    let w = choose|w: int| 0 <= w < j && eq_ignore_ascii_case(
                        #[trigger] idv.take(j as int)[w],
                        p@,
                    );
                    assert(idv.take(j + 1)[w] == idv.take(j as int)[w]);
                }
                if contains_ignore_case(idv.take(j + 1), p@) && !m {
                    let w = choose|w: int| 0 <= w < j + 1 && eq_ignore_ascii_case(
                        #[trigger] idv.take(j + 1)[w],
                        p@,
                    );
                    assert(idv.take(j as int)[w] == idv.take(j + 1)[w]);
                }
            }
            matched = matched || m;
            j = j + 1;
        }
        assert(idv.take(ids@.len() as int) =~= idv);
        if !matched && !chars_eq_ignore_ascii_case(p.as_slice(), raw.as_slice()) {
            let copy = string_copy(&cfg.blacklist[i]);
            let ghost before = kept.deep_view();
            kept.push(copy);
            proof {
                assert forall|q: int| 0 <= q < kept@.len() implies kept.deep_view()[q] == before.push(
                    p@,
                )[q] by {
                    if q < before.len() {
                        assert(kept.deep_view()[q] == before[q]);
                    }
                }
                assert(kept.deep_view() =~= before.push(p@));
            }
        }
        i = i + 1;
    }
    assert(old_list.take(cfg.blacklist@.len() as int) =~= old_list);
    cfg.blacklist = kept;
    Ok(())
}

/// Turns HidHide's device hiding on or off.
pub fn set_active(cfg: &mut HidHideConfig, active: bool) -> (r: Result<(), String>)
    ensures
        r is Ok,
        final(cfg).active == active,
        final(cfg).blacklist.deep_view() == old(cfg).blacklist.deep_view(),
        final(cfg).whitelist.deep_view() == old(cfg).whitelist.deep_view(),
{
    cfg.active = active;
    Ok(())
}

/// Whether the driver is present: its service is registered or its client
/// application is installed.
pub fn is_installed(service_installed: bool, client_found: bool) -> (r: bool)
    ensures
        r == (service_installed || client_found),
{
    service_installed || client_found
}

/// `a` ends with `b`.
pub open spec fn ends_with(a: Seq<char>, b: Seq<char>) -> bool {
    a.len() >= b.len() && a.skip(a.len() - b.len()) == b
}

/// A whitelist entry covers the running executable, given as its DOS path
/// and its `\Device\...` path (compared case-insensitively, also as
/// suffixes either way).
pub open spec fn whitelist_entry_matches(w: Seq<char>, exe: Seq<char>, device: Seq<char>) -> bool {
    let wl = lower_case(w);
    let el = lower_case(exe);
    let dl = lower_case(device);
    wl == el || wl == dl || ends_with(el, wl) || ends_with(wl, el)
}

pub open spec fn spec_is_whitelisted(l: Seq<Seq<char>>, exe: Seq<char>, device: Seq<char>) -> bool {
    exists|i: int| 0 <= i < l.len() && whitelist_entry_matches(#[trigger] l[i], exe, device)
}

fn chars_ends_with(a: &[char], b: &[char]) -> (r: bool)
    ensures
        r == ends_with(a@, b@),
{
    if a.len() < b.len() {
        return false;
    }
    let start = a.len() - b.len();
    let tail = slice_chars(a, start, a.len());
    assert(tail@ =~= a@.skip(start as int));
    chars_equal(tail.as_slice(), b)
}

fn is_whitelisted(l: &Vec<String>, exe: &str, device: &str) -> (r: bool)
    ensures
        r == spec_is_whitelisted(l.deep_view(), exe@, device@),
{
    let el = chars_of(to_lowercase(exe).as_str());
    let dl = chars_of(to_lowercase(device).as_str());
    let mut i: usize = 0;
    while i < l.len()
        invariant
            i <= l@.len(),
            el@ == lower_case(exe@),
            dl@ == lower_case(device@),
            forall|j: int| 0 <= j < i ==> !whitelist_entry_matches(#[trigger] l.deep_view()[j], exe@, device@),
        decreases l@.len() - i,
    {
        let wl = chars_of(to_lowercase(l[i].as_str()).as_str());
        if chars_equal(wl.as_slice(), el.as_slice()) || chars_equal(wl.as_slice(), dl.as_slice())
            || chars_ends_with(el.as_slice(), wl.as_slice()) || chars_ends_with(
            wl.as_slice(),
            el.as_slice(),
        ) {
            assert(whitelist_entry_matches(l.deep_view()[i as int], exe@, device@));
            return true;
        }
        i = i + 1;
    }
    false
}

fn copy_list(l: &Vec<String>) -> (r: Vec<String>)
    ensures
        r.deep_view() == l.deep_view(),
{
    let mut r: Vec<String> = Vec::new();
    let mut i: usize = 0;
    while i < l.len()
        invariant
            i <= l@.len(),
            r@.len() == i,
            r.deep_view() == l.deep_view().take(i as int),
        decreases l@.len() - i,
    {
        let ghost before = r.deep_view();
        r.push(string_copy(&l[i]));
        i = i + 1;
        proof {
            assert forall|q: int| 0 <= q < i implies r.deep_view()[q] == l.deep_view().take(
                i as int,
            )[q] by {
                if q < i - 1 {
                    assert(r.deep_view()[q] == before[q]);
                }
            }
        }
        assert(r.deep_view() =~= l.deep_view().take(i as int));
    }
    assert(l.deep_view().take(l@.len() as int) =~= l.deep_view());
    r
}

/// The status shown for the driver parameters `cfg`, for the running
/// executable `current_exe` (whose `\Device\...` form is `exe_device_path`).
/// When the driver is not installed, nothing but the executable path is
/// reported.
pub fn get_status(installed: bool, cfg: &HidHideConfig, current_exe: &str, exe_device_path: &str) -> (s: HidHideStatus)
    ensures
        s.installed == installed,
        s.app_path@ == current_exe@,
        installed ==> s.active == cfg.active && s.hidden_devices.deep_view() == cfg.blacklist.deep_view()
            && s.whitelisted == spec_is_whitelisted(cfg.whitelist.deep_view(), current_exe@, exe_device_path@),
        !installed ==> !s.active && !s.whitelisted && s.hidden_devices@.len() == 0,
{
    if !installed {
        return HidHideStatus {
            installed: false,
            active: false,
            whitelisted: false,
            hidden_devices: Vec::new(),
            app_path: String::from_str(current_exe),
        };
    }
    HidHideStatus {
        installed: true,
        active: cfg.active,
        whitelisted: is_whitelisted(&cfg.whitelist, current_exe, exe_device_path),
        hidden_devices: copy_list(&cfg.blacklist),
        app_path: String::from_str(current_exe),
    }
}

/// Un-hides every controller: empties the blacklist, turns hiding off and
/// reports the resulting status.
pub fn uncloak_all_controllers(
    cfg: &mut HidHideConfig,
    installed: bool,
    current_exe: &str,
    exe_device_path: &str,
) -> (r: Result<HidHideStatus, String>)
    ensures
        final(cfg).blacklist@.len() == 0,
        !final(cfg).active,
        final(cfg).whitelist.deep_view() == old(cfg).whitelist.deep_view(),
        r is Ok,
        r->Ok_0.installed == installed,
        r->Ok_0.app_path@ == current_exe@,
        !r->Ok_0.active,
        r->Ok_0.hidden_devices@.len() == 0,
        installed ==> r->Ok_0.whitelisted == spec_is_whitelisted(
            old(cfg).whitelist.deep_view(),
            current_exe@,
            exe_device_path@,
        ),
        !installed ==> !r->Ok_0.whitelisted,
{
    cfg.blacklist = Vec::new();
    cfg.active = false;
    let s = get_status(installed, cfg, current_exe, exe_device_path);
    assert(s.hidden_devices@.len() == s.hidden_devices.deep_view().len());
    Ok(s)
}

/// Some entry of `l` equals `x` after Unicode lower-casing both.
pub open spec fn contains_lowercase(l: Seq<Seq<char>>, x: Seq<char>) -> bool {
    exists|i: int| 0 <= i < l.len() && lower_case(#[trigger] l[i]) == lower_case(x)
}

/// `l`, with `x` appended unless already present (case-insensitively).
pub open spec fn add_if_absent(l: Seq<Seq<char>>, x: Seq<char>) -> Seq<Seq<char>> {
    if contains_lowercase(l, x) {
        l
    } else {
        l.push(x)
    }
}

fn add_if_absent_exec(l: &mut Vec<String>, x: &str)
    ensures
        final(l).deep_view() == add_if_absent(old(l).deep_view(), x@),
{
    let xl = chars_of(to_lowercase(x).as_str());
    let mut i: usize = 0;
    while i < l.len()
        invariant
            i <= l@.len(),
            xl@ == lower_case(x@),
            forall|j: int| 0 <= j < i ==> lower_case(#[trigger] l.deep_view()[j]) != lower_case(x@),
        decreases l@.len() - i,
    {
        let wl = chars_of(to_lowercase(l[i].as_str()).as_str());
        if chars_equal(wl.as_slice(), xl.as_slice()) {
            assert(lower_case(l.deep_view()[i as int]) == lower_case(x@));
            return;
        }
        i = i + 1;
    }
    let ghost before = l.deep_view();
    l.push(String::from_str(x));
    proof {
        assert forall|q: int| 0 <= q < l@.len() implies l.deep_view()[q] == before.push(x@)[q] by {
            if q < before.len() {
                assert(l.deep_view()[q] == before[q]);
            }
        }
        assert(l.deep_view() =~= before.push(x@));
    }
}

/// Whitelists the running executable under both its `\Device\...` path and
/// its DOS path (each only when not yet listed, case-insensitively), so that
/// hiding never cloaks the pads from PadFlow itself.
pub fn auto_whitelist_current_process(cfg: &mut HidHideConfig, current_exe: &str, exe_device_path: &str)
    ensures
        final(cfg).whitelist.deep_view() == add_if_absent(
            add_if_absent(old(cfg).whitelist.deep_view(), exe_device_path@),
            current_exe@,
        ),
        final(cfg).blacklist.deep_view() == old(cfg).blacklist.deep_view(),
        final(cfg).active == old(cfg).active,
{
    add_if_absent_exec(&mut cfg.whitelist, exe_device_path);
    add_if_absent_exec(&mut cfg.whitelist, current_exe);
}

/// The blacklist after hiding each device path of `paths` in turn (a path
/// without instance ids changes nothing).
pub open spec fn hide_all(l: Seq<Seq<char>>, paths: Seq<Seq<char>>) -> Seq<Seq<char>>
    decreases paths.len(),
{
    if paths.len() == 0 {
        l
    } else {
        add_missing(hide_all(l, paths.drop_last()), spec_extract_all_device_instance_ids(paths.last()))
    }
}

/// Cloaks every connected pad: whitelists the running executable, hides
/// each pad's device path in turn and turns hiding on.
pub fn auto_cloak_controllers(
    cfg: &mut HidHideConfig,
    device_paths: &[String],
    current_exe: &str,
    exe_device_path: &str,
)
    ensures
        final(cfg).whitelist.deep_view() == add_if_absent(
            add_if_absent(old(cfg).whitelist.deep_view(), exe_device_path@),
            current_exe@,
        ),
        final(cfg).blacklist.deep_view() == hide_all(old(cfg).blacklist.deep_view(), device_paths.deep_view()),
        final(cfg).active,
{
    auto_whitelist_current_process(cfg, current_exe, exe_device_path);
    let ghost start = cfg.blacklist.deep_view();
    let ghost wl = cfg.whitelist.deep_view();
    let mut i: usize = 0;
    while i < device_paths.len()
        invariant
            i <= device_paths@.len(),
            start == old(cfg).blacklist.deep_view(),
            cfg.blacklist.deep_view() == hide_all(start, device_paths.deep_view().take(i as int)),
            cfg.whitelist.deep_view() == wl,
        decreases device_paths@.len() - i,
    {
        proof {
            assert(device_paths.deep_view().take(i + 1).drop_last() =~= device_paths.deep_view().take(i as int));
            assert(device_paths.deep_view().take(i + 1).last() == device_paths@[i as int]@);
        }
        let _ = hide_device(cfg, device_paths[i].as_str());
        i = i + 1;
    }
    proof {
        assert(device_paths.deep_view().take(device_paths@.len() as int) =~= device_paths.deep_view());
    }
    cfg.active = true;
}

// ---------------------------------------------------------------------------
// DOS paths and `\Device\...` paths
// ---------------------------------------------------------------------------

/// `\Device\`, the prefix of a kernel device path.
pub open spec fn kernel_device_prefix() -> Seq<char> {
    seq!['\\', 'D', 'e', 'v', 'i', 'c', 'e', '\\']
}

/// What turning a DOS path into a `\Device\...` path needs: nothing (the
/// trimmed path is kept), or the device behind a drive (`C:`) and the rest
/// of the path.
#[derive(Debug)]
pub enum DevicePathQuery {
    Ready(String),
    Drive { drive: String, rest: String },
}

/// The trimmed path needs a drive lookup when it is not a device path yet
/// and starts with a one-byte character and a colon.
pub open spec fn needs_drive_lookup(clean: Seq<char>) -> bool {
    !(clean.len() >= 8 && clean.take(8) == kernel_device_prefix()) && clean.len() >= 2 && (clean[0] as u32)
        < 128 && clean[1] == ':'
}

/// Splits a DOS path for the drive lookup.
pub fn device_path_query(dos_path: &str) -> (q: DevicePathQuery)
    ensures
        ({
            let clean = trim(dos_path@);
            match q {
                DevicePathQuery::Ready(p) => !needs_drive_lookup(clean) && p@ == clean,
                DevicePathQuery::Drive { drive, rest } => needs_drive_lookup(clean) && drive@ == clean.take(2)
                    && rest@ == clean.skip(2),
            }
        }),
{
    let clean = trim_chars(dos_path);
    let prefix: Vec<char> = vec!['\\', 'D', 'e', 'v', 'i', 'c', 'e', '\\'];
    proof {
        assert(prefix@ =~= kernel_device_prefix());
    }
    let is_device = has_prefix(clean.as_slice(), prefix.as_slice());
    if !is_device && clean.len() >= 2 && (clean[0] as u32) < 128 && clean[1] == ':' {
        let drive = slice_chars(clean.as_slice(), 0, 2);
        let rest = slice_chars(clean.as_slice(), 2, clean.len());
        proof {
            assert(drive@ =~= clean@.take(2));
            assert(rest@ =~= clean@.skip(2));
        }
        return DevicePathQuery::Drive { drive: string_of(drive.as_slice()), rest: string_of(rest.as_slice()) };
    }
    DevicePathQuery::Ready(string_of(clean.as_slice()))
}

/// `s` without its leading NULs.
pub open spec fn trim_nul_start(s: Seq<char>) -> Seq<char>
    decreases s.len(),
{
    if s.len() > 0 && s[0] == '\0' {
        trim_nul_start(s.drop_first())
    } else {
        s
    }
}

/// `s` without its trailing NULs.
pub open spec fn trim_nul_end(s: Seq<char>) -> Seq<char>
    decreases s.len(),
{
    if s.len() > 0 && s.last() == '\0' {
        trim_nul_end(s.drop_last())
    } else {
        s
    }
}

fn trim_nuls(s: &[char]) -> (v: Vec<char>)
    ensures
        v@ == trim_nul_end(trim_nul_start(s@)),
{
    let mut lo: usize = 0;
    proof {
        assert(s@.skip(0) =~= s@);
    }
    while lo < s.len() && s[lo] == '\0'
        invariant
            lo <= s@.len(),
            trim_nul_start(s@) == trim_nul_start(s@.skip(lo as int)),
        decreases s@.len() - lo,
    {
        proof {
            assert(s@.skip(lo as int).drop_first() =~= s@.skip(lo + 1));
        }
        lo = lo + 1;
    }
    let mut hi: usize = s.len();
    while hi > lo && s[hi - 1] == '\0'
        invariant
            lo <= hi <= s@.len(),
            trim_nul_start(s@) == s@.skip(lo as int),
            trim_nul_end(s@.skip(lo as int)) == trim_nul_end(s@.subrange(lo as int, hi as int)),
        decreases hi - lo,
    {
        proof {
            assert(s@.subrange(lo as int, hi as int).drop_last() =~= s@.subrange(lo as int, hi - 1));
        }
        hi = hi - 1;
    }
    proof {
        if lo == s@.len() {
            assert(s@.skip(lo as int) =~= Seq::<char>::empty());
        } else {
            assert(s@.skip(lo as int)[0] != '\0');
        }
        assert(trim_nul_start(s@.skip(lo as int)) == s@.skip(lo as int));
        let mid = s@.subrange(lo as int, hi as int);
        assert(mid.len() == 0 || mid.last() != '\0');
    }
    slice_chars(s, lo, hi)
}

/// The `\Device\...` path of a drive path, from the drive's device name as
/// the lookup wrote it (`target`, UTF-16, NULs around it dropped) and the
/// rest of the path.
pub fn device_path_from_target(target: &[u16], rest: &str) -> (p: String)
    ensures
        p@ == trim_nul_end(trim_nul_start(utf16_decode(target@))) + rest@,
{
    let decoded = string_from_utf16_lossy(target);
    let d = chars_of(decoded.as_str());
    let mut out = trim_nuls(d.as_slice());
    let r = chars_of(rest);
    let mut i: usize = 0;
    let ghost start = out@;
    while i < r.len()
        invariant
            i <= r@.len(),
            out@ == start + r@.take(i as int),
        decreases r@.len() - i,
    {
        out.push(r[i]);
        i = i + 1;
        proof {
            assert(out@ =~= start + r@.take(i as int));
        }
    }
    proof {
        assert(r@.take(r@.len() as int) =~= r@);
    }
    string_of(out.as_slice())
}

/// Whether a device path can be hidden: refused, with the same error as
/// `hide_device`, when it yields no instance id.
pub fn check_device_path(raw_path: &str) -> (r: Result<(), String>)
    ensures
        spec_extract_all_device_instance_ids(raw_path@).len() == 0 <==> r is Err,
        r is Err ==> r->Err_0@ == "Invalid device path"@,
{
    let ids = extract_all_device_instance_ids(raw_path);
    if ids.len() == 0 {
        Err(String::from_str("Invalid device path"))
    } else {
        Ok(())
    }
}

/// Hides a physical pad from every application but PadFlow: a path with no
/// instance id is refused first and nothing changes; otherwise the running
/// executable is whitelisted (as `auto_whitelist_current_process` does) and
/// the pad hidden (as `hide_device` does).
pub fn hide_device_for_current_process(
    cfg: &mut HidHideConfig,
    raw_path: &str,
    current_exe: &str,
    exe_device_path: &str,
) -> (r: Result<(), String>)
    ensures
        ({
            let ids = spec_extract_all_device_instance_ids(raw_path@);
            &&& ids.len() == 0 ==> r is Err && r->Err_0@ == "Invalid device path"@
                && final(cfg).blacklist.deep_view() == old(cfg).blacklist.deep_view()
                && final(cfg).whitelist.deep_view() == old(cfg).whitelist.deep_view()
                && final(cfg).active == old(cfg).active
            &&& ids.len() > 0 ==> r is Ok && final(cfg).blacklist.deep_view() == add_missing(
                old(cfg).blacklist.deep_view(),
                ids,
            ) && final(cfg).active && final(cfg).whitelist.deep_view() == add_if_absent(
                add_if_absent(old(cfg).whitelist.deep_view(), exe_device_path@),
                current_exe@,
            )
        }),
{
    check_device_path(raw_path)?;
    auto_whitelist_current_process(cfg, current_exe, exe_device_path);
    hide_device(cfg, raw_path)
}

// ---------------------------------------------------------------------------
// Laws of hiding and un-hiding
// ---------------------------------------------------------------------------

/// After hiding, every id is blacklisted (up to ASCII case) and every entry
/// that was blacklisted before is still there, in front and in order.
pub proof fn lemma_hide_covers_ids(l: Seq<Seq<char>>, ids: Seq<Seq<char>>)
    ensures
        forall|k: int| 0 <= k < ids.len() ==> contains_ignore_case(add_missing(l, ids), #[trigger] ids[k]),
        add_missing(l, ids).len() >= l.len(),
        add_missing(l, ids).take(l.len() as int) == l,
    decreases ids.len(),
{
    if ids.len() > 0 {
        let p = ids.drop_last();
        lemma_hide_covers_ids(l, p);
        let m = add_missing(l, p);
        let r = add_missing(l, ids);
        assert forall|k: int| 0 <= k < ids.len() implies contains_ignore_case(r, #[trigger] ids[k]) by {
            if k < ids.len() - 1 {
                assert(ids[k] == p[k]);
                assert(contains_ignore_case(m, p[k]));
                let w = choose|w: int| 0 <= w < m.len() && eq_ignore_ascii_case(#[trigger] m[w], p[k]);
                assert(r[w] == m[w]);
            } else if !contains_ignore_case(m, ids.last()) {
                assert(r[m.len() as int] == ids.last());
                assert(eq_ignore_ascii_case(r[m.len() as int], ids[k]));
            }
        }
        assert(r.take(l.len() as int) =~= m.take(l.len() as int));
    } else {
        assert(l.take(l.len() as int) =~= l);
    }
}

proof fn lemma_added_are_ids(l: Seq<Seq<char>>, ids: Seq<Seq<char>>, i: int)
    requires
        l.len() <= i < add_missing(l, ids).len(),
    ensures
        exists|k: int| 0 <= k < ids.len() && add_missing(l, ids)[i] == #[trigger] ids[k],
    decreases ids.len(),
{
    let p = ids.drop_last();
    lemma_hide_covers_ids(l, p);
    if i < add_missing(l, p).len() {
        lemma_added_are_ids(l, p, i);
        let k = choose|k: int| 0 <= k < p.len() && add_missing(l, p)[i] == #[trigger] p[k];
        assert(ids[k] == p[k]);
    } else {
        assert(add_missing(l, ids)[i] == ids[ids.len() - 1]);
    }
}

proof fn lemma_unhide_filter_concat(a: Seq<Seq<char>>, b: Seq<Seq<char>>, ids: Seq<Seq<char>>, raw: Seq<char>)
    requires
        forall|i: int| 0 <= i < b.len() ==> !survives_unhide(#[trigger] b[i], ids, raw),
    ensures
        unhide_filter(a + b, ids, raw) == unhide_filter(a, ids, raw),
    decreases b.len(),
{
    if b.len() == 0 {
        assert(a + b =~= a);
    } else {
        assert((a + b).drop_last() =~= a + b.drop_last());
        assert((a + b).last() == b.last());
        assert(!survives_unhide(b[b.len() - 1], ids, raw));
        assert forall|i: int| 0 <= i < b.drop_last().len() implies !survives_unhide(
            #[trigger] b.drop_last()[i],
            ids,
            raw,
        ) by {
            assert(b.drop_last()[i] == b[i]);
        }
        lemma_unhide_filter_concat(a, b.drop_last(), ids, raw);
    }
}

/// After un-hiding, no blacklist entry matches one of the pad's ids or its
/// raw path (up to ASCII case), and every other entry is kept in order.
pub proof fn lemma_unhide_removes_ids(l: Seq<Seq<char>>, ids: Seq<Seq<char>>, raw: Seq<char>)
    ensures
        forall|i: int| 0 <= i < unhide_filter(l, ids, raw).len() ==> survives_unhide(
            #[trigger] unhide_filter(l, ids, raw)[i],
            ids,
            raw,
        ),
        forall|i: int| 0 <= i < l.len() && survives_unhide(#[trigger] l[i], ids, raw) ==> unhide_filter(
            l,
            ids,
            raw,
        ).contains(l[i]),
    decreases l.len(),
{
    if l.len() > 0 {
        let p = l.drop_last();
        lemma_unhide_removes_ids(p, ids, raw);
        let f = unhide_filter(p, ids, raw);
        assert forall|i: int| 0 <= i < l.len() && survives_unhide(#[trigger] l[i], ids, raw) implies unhide_filter(
            l,
            ids,
            raw,
        ).contains(l[i]) by {
            if i < l.len() - 1 {
                assert(l[i] == p[i]);
                let w = choose|w: int| 0 <= w < f.len() && f[w] == p[i];
                assert(unhide_filter(l, ids, raw)[w] == f[w]);
            } else {
                assert(unhide_filter(l, ids, raw)[f.len() as int] == l.last());
            }
        }
    }
}

/// Un-hiding a pad right after hiding it leaves the blacklist exactly as
/// un-hiding alone would: hiding only ever added entries that un-hiding
/// removes again.
pub proof fn lemma_unhide_undoes_hide(l: Seq<Seq<char>>, ids: Seq<Seq<char>>, raw: Seq<char>)
    ensures
        unhide_filter(add_missing(l, ids), ids, raw) == unhide_filter(l, ids, raw),
{
    lemma_hide_covers_ids(l, ids);
    let m = add_missing(l, ids);
    let added = m.skip(l.len() as int);
    assert(m =~= l + added);
    assert forall|i: int| 0 <= i < added.len() implies !survives_unhide(#[trigger] added[i], ids, raw) by {
        lemma_added_are_ids(l, ids, i + l.len());
        let k = choose|k: int| 0 <= k < ids.len() && m[i + l.len()] == #[trigger] ids[k];
        assert(added[i] == ids[k]);
        assert(eq_ignore_ascii_case(ids[k], added[i]));
    }
    lemma_unhide_filter_concat(l, added, ids, raw);
}


/// De-duplication keeps every element that occurs.
proof fn lemma_dedup_keeps(s: Seq<Seq<char>>, x: Seq<char>)
    requires
        s.contains(x),
    ensures
        dedup(s).contains(x),
    decreases s.len(),
{
    let d = dedup(s.drop_last());
    if s.last() == x {
        if !d.contains(x) {
            assert(d.push(x)[d.len() as int] == x);
        }
    } else {
        let j = choose|j: int| 0 <= j < s.len() && s[j] == x;
        assert(s.drop_last()[j] == x);
        lemma_dedup_keeps(s.drop_last(), x);
        if !d.contains(s.last()) {
            let k = choose|k: int| 0 <= k < d.len() && d[k] == x;
            assert(d.push(s.last())[k] == x);
        }
    }
}

/// De-duplication keeps the first element first, and is empty only for an
/// empty sequence.
proof fn lemma_dedup_first(s: Seq<Seq<char>>)
    ensures
        dedup(s).len() == 0 <==> s.len() == 0,
        s.len() > 0 ==> dedup(s)[0] == s[0],
    decreases s.len(),
{
    if s.len() > 0 {
        lemma_dedup_first(s.drop_last());
        if s.len() > 1 {
            assert(s.drop_last()[0] == s[0]);
        }
    }
}

/// The ids a raw device path is hidden under: none exactly when the path
/// normalises to nothing; otherwise the normalised id first, and, for every
/// normalised id of the form `HID\VID_...`, also its USB parent `USB\`
/// followed by the id without its first four characters, whether or not the
/// id names a `&COLxx` collection.
pub proof fn lemma_instance_ids(path: Seq<char>)
    ensures
        ({
            let n = spec_normalize_device_instance_path(path);
            let ids = spec_extract_all_device_instance_ids(path);
            &&& ids.len() == 0 <==> n.len() == 0
            &&& n.len() > 0 ==> ids[0] == n
            &&& n.len() >= 8 && n.take(8) == seq!['H', 'I', 'D', '\\', 'V', 'I', 'D', '_'] ==> ids.contains(
                seq!['U', 'S', 'B', '\\'] + n.skip(4),
            )
        }),
{
    let n = spec_normalize_device_instance_path(path);
    let c = id_candidates(n);
    lemma_dedup_first(c);
    if n.len() > 0 {
        assert(c[0] == n);
    }
    if n.len() >= 8 && n.take(8) == seq!['H', 'I', 'D', '\\', 'V', 'I', 'D', '_'] {
        assert(n.take(8) =~= hid_vid_prefix());
        let u = seq!['U', 'S', 'B', '\\'] + n.skip(4);
        assert(usb_ids(n) == seq![u]);
        let at: int = 1 + collection_ids(n).len() as int;
        assert(c[at] == u);
        lemma_dedup_keeps(c, u);
    }
}


/// When the normalised id names a HID collection (its first `&COL` is
/// followed, somewhere after, by a `\`), the ids also cover that pad's
/// sibling collections `&COL01` to `&COL06` and the collection-less id: the
/// part before `&COL`, then (for the siblings) `&COL` and the two-digit
/// number, then the part from that `\` on.
pub proof fn lemma_instance_ids_collections(path: Seq<char>)
    ensures
        ({
            let n = spec_normalize_device_instance_path(path);
            let ids = spec_extract_all_device_instance_ids(path);
            let c = find_seq(n, seq!['&', 'C', 'O', 'L']);
            let rel = find_seq(n.skip(c), seq!['\\']);
            c >= 0 && rel >= 0 ==> {
                let pre = n.take(c);
                let suf = n.skip(c + rel);
                let col = seq!['&', 'C', 'O', 'L', '0'];
                &&& ids.contains(pre + col + seq!['1'] + suf)
                &&& ids.contains(pre + col + seq!['2'] + suf)
                &&& ids.contains(pre + col + seq!['3'] + suf)
                &&& ids.contains(pre + col + seq!['4'] + suf)
                &&& ids.contains(pre + col + seq!['5'] + suf)
                &&& ids.contains(pre + col + seq!['6'] + suf)
                &&& ids.contains(pre + suf)
            }
        }),
{
    let n = spec_normalize_device_instance_path(path);
    let c = find_seq(n, seq!['&', 'C', 'O', 'L']);
    let rel = find_seq(n.skip(c), seq!['\\']);
    assert(col_marker() =~= seq!['&', 'C', 'O', 'L']);
    if c >= 0 && rel >= 0 {
        let cands = id_candidates(n);
        let pre = n.take(c);
        let suf = n.skip(c + rel);
        let col = seq!['&', 'C', 'O', 'L', '0'];
        let ci = collection_ids(n);
        assert(n.len() > 0) by {
            if n.len() == 0 {
                assert(n.skip(c) =~= n);
            }
        }
        assert forall|k: int| 0 <= k < 7 implies cands[1 + k] == ci[k] by {}
        assert(pre + col_marker() + collection_number(0) + suf =~= pre + col + seq!['1'] + suf);
        assert(pre + col_marker() + collection_number(1) + suf =~= pre + col + seq!['2'] + suf);
        assert(pre + col_marker() + collection_number(2) + suf =~= pre + col + seq!['3'] + suf);
        assert(pre + col_marker() + collection_number(3) + suf =~= pre + col + seq!['4'] + suf);
        assert(pre + col_marker() + collection_number(4) + suf =~= pre + col + seq!['5'] + suf);
        assert(pre + col_marker() + collection_number(5) + suf =~= pre + col + seq!['6'] + suf);
        assert(cands[1] == pre + col + seq!['1'] + suf);
        assert(cands[2] == pre + col + seq!['2'] + suf);
        assert(cands[3] == pre + col + seq!['3'] + suf);
        assert(cands[4] == pre + col + seq!['4'] + suf);
        assert(cands[5] == pre + col + seq!['5'] + suf);
        assert(cands[6] == pre + col + seq!['6'] + suf);
        assert(cands[7] == pre + suf);
        lemma_dedup_keeps(cands, pre + col + seq!['1'] + suf);
        lemma_dedup_keeps(cands, pre + col + seq!['2'] + suf);
        lemma_dedup_keeps(cands, pre + col + seq!['3'] + suf);
        lemma_dedup_keeps(cands, pre + col + seq!['4'] + suf);
        lemma_dedup_keeps(cands, pre + col + seq!['5'] + suf);
        lemma_dedup_keeps(cands, pre + col + seq!['6'] + suf);
        lemma_dedup_keeps(cands, pre + suf);
    }
}

} // verus!
