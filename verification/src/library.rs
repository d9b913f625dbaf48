use vstd::prelude::*;

verus! {

/// A recording found in the output folder.
#[derive(Debug)]
pub struct RecordingEntry {
    pub file_name: String,
    pub path: String,
    pub size_bytes: u64,
    pub modified_unix_ms: i64,
}

impl Clone for RecordingEntry {
    fn clone(&self) -> (r: Self)
        ensures
            r == *self,
    {
        RecordingEntry {
            file_name: self.file_name.clone(),
            path: self.path.clone(),
            size_bytes: self.size_bytes,
            modified_unix_ms: self.modified_unix_ms,
        }
    }
}

/// ASCII letters in lower case; every other character unchanged.
pub open spec fn ascii_lower(c: char) -> char {
    if 'A' <= c && c <= 'Z' {
        ((c as int) + 32) as char
    } else {
        c
    }
}

/// The name in ASCII lower case, as `str::to_ascii_lowercase` makes it.
pub open spec fn ascii_lowercase(s: Seq<char>) -> Seq<char> {
    s.map_values(|c: char| ascii_lower(c))
}

/// A file name this application gives its recordings: in ASCII lower case
/// it starts with "simplerecorder_" and ends with ".mp4".
pub open spec fn is_recording_name(name: Seq<char>) -> bool {
    let lower = ascii_lowercase(name);
    &&& lower.len() >= 15
    &&& lower.take(15) == "simplerecorder_"@
    &&& lower.len() >= 4
    &&& lower.skip(lower.len() - 4) == ".mp4"@
}

proof fn lemma_lower_keeps(s: Seq<char>, lit: Seq<char>, off: int)
    requires
        0 <= off,
        off + lit.len() <= s.len(),
        s.subrange(off, off + lit.len()) == lit,
        forall|k: int| 0 <= k < lit.len() ==> !('A' <= #[trigger] lit[k] && lit[k] <= 'Z'),
    ensures
        ascii_lowercase(s).subrange(off, off + lit.len()) == lit,
{
    let l = ascii_lowercase(s);
    assert forall|k: int| 0 <= k < lit.len() implies #[trigger] l.subrange(off, off + lit.len())[k] == lit[k] by {
        assert(s[off + k] == lit[k]);
    }
    assert(l.subrange(off, off + lit.len()) =~= lit);
}

/// Every name whose ASCII-lowercase form is "simplerecorder_", then any
/// text, then ".mp4" is a recording name, whatever its length; in
/// particular "SimpleRecorder_<anything>.mp4", as recordings are named.
/// Conversely every recording name lowercases to that shape.
pub proof fn law_recording_names(name: Seq<char>, s: Seq<char>)
    ensures
        ascii_lowercase(name) == "simplerecorder_"@ + s + ".mp4"@ ==> is_recording_name(name),
        is_recording_name("SimpleRecorder_"@ + s + ".mp4"@),
        is_recording_name("simplerecorder_"@ + s + ".mp4"@),
        is_recording_name(name) ==> ascii_lowercase(name).len() >= 19 && ascii_lowercase(name) == "simplerecorder_"@
            + ascii_lowercase(name).subrange(15, ascii_lowercase(name).len() - 4) + ".mp4"@,
{
    reveal_strlit("simplerecorder_");
    reveal_strlit("SimpleRecorder_");
    reveal_strlit(".mp4");
    let pre = "simplerecorder_"@;
    let suf = ".mp4"@;
    if ascii_lowercase(name) == pre + s + suf {
        let l = ascii_lowercase(name);
        assert(l.take(15) =~= pre);
        assert(l.skip(l.len() - 4) =~= suf);
    }
    let lower_name = pre + s + suf;
    assert(lower_name.subrange(0, 15) =~= pre);
    assert(lower_name.subrange(lower_name.len() - 4, lower_name.len() as int) =~= suf);
    lemma_lower_keeps(lower_name, pre, 0);
    lemma_lower_keeps(lower_name, suf, lower_name.len() - 4);
    assert(ascii_lowercase(lower_name).take(15) =~= pre);
    assert(ascii_lowercase(lower_name).skip(lower_name.len() - 4) =~= suf);
    let upper = "SimpleRecorder_"@ + s + suf;
    let lu = ascii_lowercase(upper);
    assert(ascii_lower('S') == 's');
    assert(ascii_lower('R') == 'r');
    assert forall|k: int| 0 <= k < 15 implies #[trigger] lu.take(15)[k] == pre[k] by {
        assert(upper[k] == "SimpleRecorder_"@[k]);
    }
    assert(lu.take(15) =~= pre);
    assert(upper.subrange(upper.len() - 4, upper.len() as int) =~= suf);
    lemma_lower_keeps(upper, suf, upper.len() - 4);
    assert(lu.skip(upper.len() - 4) =~= suf);
    if is_recording_name(name) {
        let l = ascii_lowercase(name);
        if l.len() < 19 {
            let q = l.len() - 4;
            assert(l.skip(q)[0] == '.');
            assert(l[q] == l.take(15)[q]);
            assert(pre[q] != '.');
        }
        assert(l =~= l.take(15) + l.subrange(15, l.len() - 4) + l.skip(l.len() - 4));
    }
}

/// Whether `c` is `lower` or, for an ASCII letter, its upper-case form
/// `upper`.
fn char_matches(c: char, lower: char, upper: char) -> (r: bool)
    requires
        !('A' <= lower <= 'Z'),
        (upper == lower && !('a' <= lower <= 'z')) || ('a' <= lower <= 'z' && upper as int == lower as int - 32),
    ensures
        r == (ascii_lower(c) == lower),
{
    if 'A' <= c && c <= 'Z' {
        assert((((c as int) + 32) as char) as int == (c as int) + 32);
    }
    c == lower || c == upper
}

/// Whether a file name is one of this application's recordings: ignoring
/// ASCII case, it starts with "simplerecorder_" and ends with ".mp4".
pub fn is_app_recording_name(name: &str) -> (r: bool)
    ensures
        r == is_recording_name(name@),
{
    let prefix_lower = "simplerecorder_";
    let prefix_upper = "SIMPLERECORDER_";
    let suffix_lower = ".mp4";
    let suffix_upper = ".MP4";
    proof {
        reveal_strlit("simplerecorder_");
        reveal_strlit("SIMPLERECORDER_");
        reveal_strlit(".mp4");
        reveal_strlit(".MP4");
    }
    let ghost lower = ascii_lowercase(name@);
    let n = name.unicode_len();
    if n < 15 || n < 4 {
        return false;
    }
    let mut i: usize = 0;
    while i < 15
        invariant
            i <= 15,
            n == name@.len(),
            n >= 15,
            lower == ascii_lowercase(name@),
            prefix_lower@ == "simplerecorder_"@,
            prefix_upper@ == "SIMPLERECORDER_"@,
            forall|k: int| 0 <= k < i ==> lower[k] == #[trigger] prefix_lower@[k],
        decreases 15 - i,
    {
        proof {
            reveal_strlit("simplerecorder_");
            reveal_strlit("SIMPLERECORDER_");
        }
        let c = name.get_char(i);
        let lc = prefix_lower.get_char(i);
        let uc = prefix_upper.get_char(i);
        if !char_matches(c, lc, uc) {
            assert(lower.take(15)[i as int] != "simplerecorder_"@[i as int]);
            return false;
        }
        i = i + 1;
    }
    assert(lower.take(15) =~= "simplerecorder_"@);
    let mut j: usize = 0;
    while j < 4
        invariant
            j <= 4,
            n == name@.len(),
            n >= 15,
            lower == ascii_lowercase(name@),
            lower.take(15) == "simplerecorder_"@,
            suffix_lower@ == ".mp4"@,
            suffix_upper@ == ".MP4"@,
            forall|k: int| 0 <= k < j ==> lower[n - 4 + k] == #[trigger] suffix_lower@[k],
        decreases 4 - j,
    {
        proof {
            reveal_strlit(".mp4");
            reveal_strlit(".MP4");
        }
        let c = name.get_char(n - 4 + j);
        let lc = suffix_lower.get_char(j);
        let uc = suffix_upper.get_char(j);
        if !char_matches(c, lc, uc) {
            assert(lower.skip(n - 4)[j as int] != ".mp4"@[j as int]);
            return false;
        }
        j = j + 1;
    }
    assert(lower.skip(n - 4) =~= ".mp4"@);
    true
}

/// Entries modified at `m` milliseconds.
pub open spec fn modified_at(m: i64) -> spec_fn(RecordingEntry) -> bool {
    |e: RecordingEntry| e.modified_unix_ms == m
}

/// Newest first: modification times never increase along the list.
pub open spec fn newest_first(s: Seq<RecordingEntry>) -> bool {
    forall|i: int, j: int| 0 <= i < j < s.len() ==> (#[trigger] s[i]).modified_unix_ms >= (#[trigger] s[j]).modified_unix_ms
}

/// `t` holds the entries of `s`, and entries with the same modification
/// time keep their relative order.
pub open spec fn same_entries_stably(t: Seq<RecordingEntry>, s: Seq<RecordingEntry>) -> bool {
    forall|m: i64| #[trigger] t.filter(modified_at(m)) == s.filter(modified_at(m))
}

proof fn lemma_filter_none(s: Seq<RecordingEntry>, m: i64)
    requires
        forall|i: int| 0 <= i < s.len() ==> (#[trigger] s[i]).modified_unix_ms != m,
    ensures
        s.filter(modified_at(m)) == Seq::<RecordingEntry>::empty(),
    decreases s.len(),
{
    reveal(Seq::filter);
    if s.len() > 0 {
        lemma_filter_none(s.drop_last(), m);
    }
}

proof fn lemma_insert_front_of_equals(s: Seq<RecordingEntry>, p: int, x: RecordingEntry)
    requires
        newest_first(s),
        0 <= p <= s.len(),
        forall|i: int| 0 <= i < p ==> (#[trigger] s[i]).modified_unix_ms > x.modified_unix_ms,
        forall|i: int| p <= i < s.len() ==> (#[trigger] s[i]).modified_unix_ms <= x.modified_unix_ms,
    ensures
        newest_first(s.insert(p, x)),
        forall|m: i64| #[trigger] s.insert(p, x).filter(modified_at(m)) == (seq![x] + s).filter(modified_at(m)),
{
    let t = s.insert(p, x);
    assert forall|i: int, j: int| 0 <= i < j < t.len() implies (#[trigger] t[i]).modified_unix_ms >= (#[trigger] t[j]).modified_unix_ms by {
        if j < p {
            assert(t[i] == s[i] && t[j] == s[j]);
        } else if j == p {
            assert(t[j] == x && t[i] == s[i]);
        } else if i == p {
            assert(t[i] == x && t[j] == s[j - 1]);
        } else if i < p {
            assert(t[i] == s[i] && t[j] == s[j - 1]);
        } else {
            assert(t[i] == s[i - 1] && t[j] == s[j - 1]);
        }
    }
    assert forall|m: i64| #[trigger] t.filter(modified_at(m)) == (seq![x] + s).filter(modified_at(m)) by {
        let a = s.take(p);
        let b = s.skip(p);
        assert(t =~= a + seq![x] + b);
        assert(s =~= a + b);
        Seq::filter_distributes_over_add(a + seq![x], b, modified_at(m));
        Seq::filter_distributes_over_add(a, seq![x], modified_at(m));
        Seq::filter_distributes_over_add(a, b, modified_at(m));
        Seq::filter_distributes_over_add(seq![x], s, modified_at(m));
        assert(seq![x] =~= Seq::<RecordingEntry>::empty().push(x));
        Seq::<RecordingEntry>::empty().lemma_filter_push(x, modified_at(m));
        assert(Seq::<RecordingEntry>::empty().filter(modified_at(m)) =~= Seq::<RecordingEntry>::empty()) by {
            reveal(Seq::filter);
        }
        if x.modified_unix_ms == m {
            lemma_filter_none(a, m);
            assert((seq![x] + s).filter(modified_at(m)) == seq![x].filter(modified_at(m)) + b.filter(modified_at(m)));
        }
    }
}

/// Sorts recordings newest first by modification time; recordings modified
/// at the same time keep their order.
pub fn sort_recordings_newest_first(entries: &mut Vec<RecordingEntry>)
    ensures
        final(entries)@.len() == old(entries)@.len(),
        newest_first(final(entries)@),
        same_entries_stably(final(entries)@, old(entries)@),
{
    let ghost orig = entries@;
    let mut pending: Vec<RecordingEntry> = Vec::new();
    std::mem::swap(&mut pending, entries);
    while pending.len() > 0
        invariant
            pending@ == orig.take(pending@.len() as int),
            pending@.len() <= orig.len(),
            entries@.len() + pending@.len() == orig.len(),
            newest_first(entries@),
            forall|m: i64| #[trigger] entries@.filter(modified_at(m)) == orig.skip(pending@.len() as int).filter(modified_at(m)),
        decreases pending@.len(),
    {
        let ghost k = pending@.len() as int;
        let x = pending.pop().unwrap();
        let mut p: usize = 0;
        while p < entries.len() && entries[p].modified_unix_ms > x.modified_unix_ms
            invariant
                p <= entries@.len(),
                forall|i: int| 0 <= i < p ==> (#[trigger] entries@[i]).modified_unix_ms > x.modified_unix_ms,
            decreases entries@.len() - p,
        {
            p = p + 1;
        }
        let ghost before = entries@;
        proof {
            assert forall|i: int| p <= i < before.len() implies (#[trigger] before[i]).modified_unix_ms <= x.modified_unix_ms by {
                assert(before[p as int].modified_unix_ms <= x.modified_unix_ms);
            }
            lemma_insert_front_of_equals(before, p as int, x);
            assert(orig.skip(k - 1) =~= seq![x] + orig.skip(k));
            assert(pending@ =~= orig.take(k - 1));
        }
        entries.insert(p, x);
    }
    assert(orig.skip(0) =~= orig);
}

/// A sorted recording list runs newest first: along it modification
/// times never increase.
pub proof fn law_sorted_recordings(t: Seq<RecordingEntry>)
    requires
        newest_first(t),
    ensures
        forall|i: int, j: int| 0 <= i < j < t.len() ==> (#[trigger] t[i]).modified_unix_ms >= (#[trigger] t[j]).modified_unix_ms,
{
}

} // verus!
