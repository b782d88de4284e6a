use vstd::prelude::*;
use crate::error::Error;

verus! {

/// What `String::from_utf8` makes of a byte string: its text, or nothing
/// where the bytes are not UTF-8.
pub uninterp spec fn utf8_text(b: Seq<u8>) -> Option<Seq<char>>;

/// Relies on `String::from_utf8`: it decodes the bytes or rejects them, by
/// the bytes alone; on rejection the error's message is handed back.
#[verifier::external_body]
fn decode_utf8(b: &[u8]) -> (r: Result<String, String>)
    ensures
        r is Ok <==> utf8_text(b@) is Some,
        r is Ok ==> utf8_text(b@) == Some(r->Ok_0@),
{
    match String::from_utf8(b.to_vec()) {
        Ok(s) => Ok(s),
        Err(e) => Err(e.to_string()),
    }
}

/// The index of the first newline byte, or the length where there is none.
pub open spec fn first_newline(s: Seq<u8>) -> nat
    decreases s.len(),
{
    if s.len() == 0 {
        0
    } else if s[0] == 10 {
        0
    } else {
        1 + first_newline(s.drop_first())
    }
}

/// A line that ended in a newline, without the carriage return before it.
pub open spec fn trim_cr(line: Seq<u8>) -> Seq<u8> {
    if line.len() > 0 && line.last() == 13 {
        line.drop_last()
    } else {
        line
    }
}

/// The lines of a byte string: split at each newline, a carriage return
/// before the newline dropped, and a last line without a newline kept where
/// it is not empty.
pub open spec fn lines(s: Seq<u8>) -> Seq<Seq<u8>>
    decreases s.len(),
{
    if s.len() == 0 {
        seq![]
    } else {
        let i = first_newline(s);
        if i < s.len() {
            seq![trim_cr(s.subrange(0, i as int))] + lines(s.subrange((i + 1) as int, s.len() as int))
        } else {
            seq![s]
        }
    }
}

proof fn lemma_first_newline(t: Seq<u8>, m: int)
    requires
        0 <= m <= t.len(),
        forall|k: int| 0 <= k < m ==> t[k] != 10,
        m == t.len() || t[m] == 10,
    ensures
        first_newline(t) == m,
    decreases m,
{
    if m > 0 {
        lemma_first_newline(t.drop_first(), m - 1);
    }
}

fn copy_range(s: &[u8], from: usize, to: usize) -> (r: Vec<u8>)
    requires
        from <= to <= s@.len(),
    ensures
        r@ == s@.subrange(from as int, to as int),
{
    let mut r: Vec<u8> = Vec::new();
    let mut k: usize = from;
    while k < to
        invariant
            from <= k <= to,
            to <= s@.len(),
            r@ == s@.subrange(from as int, k as int),
        decreases to - k,
    {
        r.push(s[k]);
        k = k + 1;
        assert(r@ == s@.subrange(from as int, k as int));
    }
    r
}

/// Splits a byte string into its lines.
pub fn split_lines(s: &[u8]) -> (r: Vec<Vec<u8>>)
    ensures
        r@.map_values(|l: Vec<u8>| l@) == lines(s@),
{
    let mut out: Vec<Vec<u8>> = Vec::new();
    let mut start: usize = 0;
    let len = s.len();
    assert(s@.subrange(0, len as int) == s@);
    while start < len
        invariant
            0 <= start <= len,
            len == s@.len(),
            out@.map_values(|l: Vec<u8>| l@) + lines(s@.subrange(start as int, len as int)) == lines(s@),
        decreases len - start,
    {
        let ghost t = s@.subrange(start as int, len as int);
        let mut j: usize = start;
        while j < len && s[j] != 10
            invariant
                start <= j <= len,
                len == s@.len(),
                forall|k: int| start <= k < j ==> s@[k] != 10,
            decreases len - j,
        {
            j = j + 1;
        }
        proof {
            lemma_first_newline(t, j - start);
        }
        let ghost before = out@.map_values(|l: Vec<u8>| l@);
        if j < len {
            let end: usize = if j > start && s[j - 1] == 13 {
                j - 1
            } else {
                j
            };
            let line = copy_range(s, start, end);
            assert(line@ == trim_cr(t.subrange(0, j - start)));
            out.push(line);
            assert(t.subrange(j - start + 1, t.len() as int) == s@.subrange(j + 1, len as int));
            assert(out@.map_values(|l: Vec<u8>| l@) == before.push(line@));
            assert(lines(t) == seq![line@] + lines(s@.subrange(j + 1, len as int)));
            assert(before + lines(t) == before.push(line@) + lines(s@.subrange(j + 1, len as int)));
            start = j + 1;
        } else {
            let line = copy_range(s, start, len);
            out.push(line);
            assert(lines(t) == seq![line@]);
            assert(out@.map_values(|l: Vec<u8>| l@) == before.push(line@));
            assert(s@.subrange(len as int, len as int) == Seq::<u8>::empty());
            assert(lines(Seq::<u8>::empty()) == Seq::<Seq<u8>>::empty());
            assert(before + lines(t) == before.push(line@) + Seq::<Seq<u8>>::empty());
            start = len;
        }
    }
    assert(s@.subrange(len as int, len as int) == Seq::<u8>::empty());
    assert(out@.map_values(|l: Vec<u8>| l@) + Seq::<Seq<u8>>::empty() == out@.map_values(|l: Vec<u8>| l@));
    out
}

/// Whether every line decodes as UTF-8.
pub open spec fn all_text(ls: Seq<Seq<u8>>) -> bool {
    forall|i: int| 0 <= i < ls.len() ==> (#[trigger] utf8_text(ls[i])) is Some
}

/// The names a directory listing holds: one per line, each line decoded as
/// UTF-8. A line that is not UTF-8 makes the whole listing an `Internal` error.
pub fn listing(body: &[u8]) -> (r: Result<Vec<String>, Error>)
    ensures
        r is Ok <==> all_text(lines(body@)),
        r is Ok ==> r->Ok_0@.len() == lines(body@).len() && forall|i: int|
            0 <= i < r->Ok_0@.len() ==> utf8_text(lines(body@)[i]) == Some(
                #[trigger] r->Ok_0@[i]@,
            ),
        r is Err ==> r->Err_0 is Internal,
{
    let ls = split_lines(body);
    let ghost lv = ls@.map_values(|l: Vec<u8>| l@);
    let mut names: Vec<String> = Vec::new();
    let mut i: usize = 0;
    while i < ls.len()
        invariant
            0 <= i <= ls@.len(),
            lv == lines(body@),
            lv == ls@.map_values(|l: Vec<u8>| l@),
            names@.len() == i,
            forall|k: int| 0 <= k < i ==> utf8_text(lv[k]) == Some(#[trigger] names@[k]@),
        decreases ls@.len() - i,
    {
        assert(lv[i as int] == ls@[i as int]@);
        match decode_utf8(ls[i].as_slice()) {
            Ok(name) => names.push(name),
            Err(_) => {
                assert(!all_text(lines(body@)));
                return Err(Error::Internal(String::from_str("stream did not contain valid UTF-8")));
            },
        }
        i = i + 1;
    }
    assert(all_text(lines(body@))) by {
        assert forall|k: int| 0 <= k < lv.len() implies (#[trigger] utf8_text(lv[k])) is Some by {
            assert(utf8_text(lv[k]) == Some(names@[k]@));
        }
    }
    Ok(names)
}

/// A leaf's value: the body decoded as UTF-8, else an `Internal` error.
pub fn leaf_text(body: &[u8]) -> (r: Result<String, Error>)
    ensures
        r is Ok <==> utf8_text(body@) is Some,
        r is Ok ==> utf8_text(body@) == Some(r->Ok_0@),
        r is Err ==> r->Err_0 is Internal,
{
    match decode_utf8(body) {
        Ok(s) => Ok(s),
        Err(msg) => Err(Error::Internal(msg)),
    }
}

} // verus!
