use vstd::prelude::*;

verus! {

/// Whether `needle` occurs as a contiguous run inside `hay`.
pub open spec fn contains_seq(hay: Seq<char>, needle: Seq<char>) -> bool {
    exists|i: int|
        0 <= i && i + needle.len() <= hay.len() && #[trigger] hay.subrange(i, i + needle.len())
            == needle
}

/// The characters of a string slice, gathered into a vector.
pub fn chars_of(s: &str) -> (r: Vec<char>)
    ensures
        r@ == s@,
{
    let n = s.unicode_len();
    let mut r: Vec<char> = Vec::new();
    let mut i: usize = 0;
    while i < n
        invariant
            n == s@.len(),
            i <= n,
            r@ == s@.subrange(0, i as int),
        decreases n - i,
    {
        r.push(s.get_char(i));
        i = i + 1;
    }
    assert(r@ == s@.subrange(0, n as int));
    assert(s@.subrange(0, n as int) =~= s@);
    r
}

/// Character-wise equality of two string slices.
pub fn same_text(a: &str, b: &str) -> (r: bool)
    ensures
        r == (a@ == b@),
{
    let x = chars_of(a);
    let y = chars_of(b);
    if x.len() != y.len() {
        return false;
    }
    let mut i: usize = 0;
    while i < x.len()
        invariant
            x@ == a@,
            y@ == b@,
            x.len() == y.len(),
            i <= x.len(),
            forall|k: int| 0 <= k < i ==> x@[k] == y@[k],
        decreases x.len() - i,
    {
        if x[i] != y[i] {
            return false;
        }
        i = i + 1;
    }
    assert(x@ =~= y@);
    true
}

/// Whether `needle` occurs inside `hay`, character for character.
pub fn contains_text(hay: &str, needle: &str) -> (r: bool)
    ensures
        r == contains_seq(hay@, needle@),
{
    let h = chars_of(hay);
    let n = chars_of(needle);
    if n.len() > h.len() {
        return false;
    }
    let last = h.len() - n.len();
    let mut start: usize = 0;
    while start <= last
        invariant
            h@ == hay@,
            n@ == needle@,
            last == h.len() - n.len(),
            n.len() <= h.len(),
            forall|p: int|
                0 <= p < start ==> #[trigger] hay@.subrange(p, p + needle@.len()) != needle@,
        decreases last + 1 - start,
    {
        let mut k: usize = 0;
        let mut same = true;
        while k < n.len()
            invariant
                h@ == hay@,
                n@ == needle@,
                start <= last,
                last == h.len() - n.len(),
                k <= n.len(),
                same == (forall|j: int| 0 <= j < k ==> h@[start + j] == n@[j]),
            decreases n.len() - k,
        {
            if h[start + k] != n[k] {
                same = false;
            }
            k = k + 1;
        }
        if same {
            assert(hay@.subrange(start as int, start + needle@.len()) =~= needle@);
            return true;
        }
        proof {
            let j = choose|j: int| 0 <= j < n.len() && h@[start + j] != n@[j];
            assert(hay@.subrange(start as int, start + needle@.len())[j] != needle@[j]);
        }
        start = start + 1;
    }
    false
}

/// Whether every character is an ASCII digit and there is at least one.
pub open spec fn is_digits(d: Seq<char>) -> bool {
    d.len() > 0 && forall|i: int| 0 <= i < d.len() ==> '0' <= #[trigger] d[i] <= '9'
}

/// The value of a run of decimal digits.
pub open spec fn digits_value(d: Seq<char>) -> int
    decreases d.len(),
{
    if d.len() == 0 {
        0
    } else {
        digits_value(d.drop_last()) * 10 + (d.last() as int - '0' as int)
    }
}

/// How `u32::from_str` reads a text: an optional `+`, then one or more
/// decimal digits whose value fits in 32 bits.
pub open spec fn parsed_u32(s: Seq<char>) -> Option<u32> {
    let d = if s.len() > 0 && s[0] == '+' {
        s.drop_first()
    } else {
        s
    };
    if is_digits(d) && digits_value(d) <= u32::MAX {
        Some(digits_value(d) as u32)
    } else {
        None
    }
}

proof fn lemma_digits_value_nonneg(d: Seq<char>)
    requires
        forall|i: int| 0 <= i < d.len() ==> '0' <= #[trigger] d[i] <= '9',
    ensures
        digits_value(d) >= 0,
    decreases d.len(),
{
    if d.len() > 0 {
        lemma_digits_value_nonneg(d.drop_last());
    }
}

/// Reads the characters `c[from..]` as `u32::from_str` reads a text.
fn parse_u32_chars(c: &Vec<char>, from: usize) -> (r: Option<u32>)
    requires
        from <= c@.len(),
    ensures
        r == parsed_u32(c@.subrange(from as int, c@.len() as int)),
{
    let ghost s = c@.subrange(from as int, c@.len() as int);
    let start: usize = if from < c.len() && c[from] == '+' {
        from + 1
    } else {
        from
    };
    let ghost d = if s.len() > 0 && s[0] == '+' {
        s.drop_first()
    } else {
        s
    };
    assert(d =~= c@.subrange(start as int, c@.len() as int));
    if start >= c.len() {
        assert(!is_digits(d));
        return None;
    }
    let mut value: u64 = 0;
    let mut i: usize = start;
    assert(c@.subrange(start as int, start as int) =~= Seq::<char>::empty());
    while i < c.len()
        invariant
            start <= i <= c@.len(),
            from <= c@.len(),
            s == c@.subrange(from as int, c@.len() as int),
            d == (if s.len() > 0 && s[0] == '+' {
                s.drop_first()
            } else {
                s
            }),
            d == c@.subrange(start as int, c@.len() as int),
            forall|k: int| start <= k < i ==> '0' <= #[trigger] c@[k] <= '9',
            value as int == digits_value(c@.subrange(start as int, i as int)),
            value <= u32::MAX,
        decreases c.len() - i,
    {
        let ch = c[i];
        let ghost pre = c@.subrange(start as int, i + 1);
        assert(pre.drop_last() =~= c@.subrange(start as int, i as int));
        assert(pre.last() == ch);
        if ch < '0' || ch > '9' {
            assert(d[i - start] == ch);
            assert(!is_digits(d));
            return None;
        }
        let digit: u64 = (ch as u32 - '0' as u32) as u64;
        assert(digit as int == ch as int - '0' as int);
        let next: u64 = value * 10 + digit;
        assert(next as int == digits_value(pre));
        if next > u32::MAX as u64 {
            proof {
                if is_digits(d) {
                    assert(d.subrange(0, i + 1 - start) =~= pre);
                    lemma_digits_prefix_bound(d, i + 1 - start);
                }
            }
            return None;
        }
        value = next;
        i = i + 1;
    }
    assert(c@.subrange(start as int, i as int) =~= d);
    Some(value as u32)
}

/// Reads a decimal number as `u32::from_str` does.
pub fn parse_u32(s: &str) -> (r: Option<u32>)
    ensures
        r == parsed_u32(s@),
{
    let c = chars_of(s);
    assert(c@.subrange(0, c@.len() as int) =~= s@);
    parse_u32_chars(&c, 0)
}

proof fn lemma_digits_prefix_bound(d: Seq<char>, n: int)
    requires
        is_digits(d),
        0 < n <= d.len(),
    ensures
        digits_value(d) >= digits_value(d.subrange(0, n)),
    decreases d.len(),
{
    if n < d.len() {
        let p = d.drop_last();
        assert(p.subrange(0, n) =~= d.subrange(0, n));
        lemma_digits_prefix_bound(p, n);
        lemma_digits_value_nonneg(p);
    } else {
        assert(d.subrange(0, n) =~= d);
    }
}

/// The text between the last two `/` of a path, as the second-to-last piece
/// of splitting at `/`; nothing when the text holds no `/`.
pub open spec fn second_last_segment(s: Seq<char>) -> Option<Seq<char>> {
    if exists|i: int| 0 <= i < s.len() && s[i] == '/' {
        let last = choose|i: int|
            0 <= i < s.len() && s[i] == '/' && forall|k: int| i < k < s.len() ==> s[k] != '/';
        let start = if exists|i: int| 0 <= i < last && s[i] == '/' {
            1 + choose|i: int|
                0 <= i < last && s[i] == '/' && forall|k: int| i < k < last ==> s[k] != '/'
        } else {
            0
        };
        Some(s.subrange(start, last))
    } else {
        None
    }
}

/// The index of the last `/` before position `end`, if any.
fn last_slash_before(c: &Vec<char>, end: usize) -> (r: Option<usize>)
    requires
        end <= c@.len(),
    ensures
        match r {
            Some(i) => i < end && c@[i as int] == '/' && forall|k: int| i < k < end ==> c@[k] != '/',
            None => forall|k: int| 0 <= k < end ==> c@[k] != '/',
        },
{
    let mut i: usize = end;
    while i > 0
        invariant
            i <= end,
            end <= c@.len(),
            forall|k: int| i <= k < end ==> c@[k] != '/',
        decreases i,
    {
        if c[i - 1] == '/' {
            return Some(i - 1);
        }
        i = i - 1;
    }
    None
}

/// The id at the end of a resource link such as `.../pokemon/25/`: the
/// second-to-last `/`-separated piece, read as a number.
pub fn id_from_url(url: &str) -> (r: Option<u32>)
    ensures
        r == (match second_last_segment(url@) {
            Some(seg) => parsed_u32(seg),
            None => None,
        }),
{
    let c = chars_of(url);
    match last_slash_before(&c, c.len()) {
        None => {
            assert(!exists|i: int| 0 <= i < url@.len() && url@[i] == '/');
            None
        },
        Some(last) => {
            let ghost s = url@;
            assert(exists|i: int| 0 <= i < s.len() && s[i] == '/');
            let ghost chosen = choose|i: int|
                0 <= i < s.len() && s[i] == '/' && forall|k: int| i < k < s.len() ==> s[k] != '/';
            assert(chosen == last as int) by {
                if chosen < last {
                } else if chosen > last {
                }
            }
            let start: usize = match last_slash_before(&c, last) {
                Some(p) => {
                    proof {
                        let cp = choose|i: int|
                            0 <= i < last && s[i] == '/' && forall|k: int| i < k < last ==> s[k]
                                != '/';
                        if cp < p {
                        } else if cp > p {
                        }
                        assert(cp == p);
                    }
                    p + 1
                },
                None => 0,
            };
            let seg = sub_chars(&c, start, last);
            assert(seg@.subrange(0, seg@.len() as int) =~= url@.subrange(start as int, last as int));
            parse_u32_chars(&seg, 0)
        },
    }
}

/// The characters `c[from..to]`.
fn sub_chars(c: &Vec<char>, from: usize, to: usize) -> (r: Vec<char>)
    requires
        from <= to <= c@.len(),
    ensures
        r@ == c@.subrange(from as int, to as int),
{
    let mut r: Vec<char> = Vec::new();
    let mut i: usize = from;
    while i < to
        invariant
            from <= i <= to,
            to <= c@.len(),
            r@ == c@.subrange(from as int, i as int),
        decreases to - i,
    {
        r.push(c[i]);
        assert(c@.subrange(from as int, i + 1) =~= c@.subrange(from as int, i as int).push(c@[i as int]));
        i = i + 1;
    }
    r
}

/// The lower-case form of a string, as `str::to_lowercase` gives it.
pub uninterp spec fn lower_of(s: Seq<char>) -> Seq<char>;

/// Relies on `str::to_lowercase`: the result depends on the characters alone,
/// and the empty string stays empty.
#[verifier::external_body]
pub(crate) fn lowercase(s: &str) -> (r: String)
    ensures
        r@ == lower_of(s@),
        s@.len() == 0 ==> r@.len() == 0,
{
    s.to_lowercase()
}

} // verus!
