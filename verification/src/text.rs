use vstd::prelude::*;
use vstd::std_specs::iter::IteratorSpec;

verus! {

/// Whether a character has Unicode's `White_Space` property, which
/// `char::is_whitespace` tests and `str::trim` removes: the code points that the
/// Unicode Character Database (`PropList.txt`) lists for it.
pub open spec fn white_space(c: char) -> bool {
    let n = c as int;
    ||| 0x9 <= n <= 0xD
    ||| n == 0x20
    ||| n == 0x85
    ||| n == 0xA0
    ||| n == 0x1680
    ||| 0x2000 <= n <= 0x200A
    ||| n == 0x2028
    ||| n == 0x2029
    ||| n == 0x202F
    ||| n == 0x205F
    ||| n == 0x3000
}

/// The text without its leading white space.
pub open spec fn trim_start(s: Seq<char>) -> Seq<char>
    decreases s.len(),
{
    if s.len() > 0 && white_space(s[0]) {
        trim_start(s.drop_first())
    } else {
        s
    }
}

/// The text without its trailing white space.
pub open spec fn trim_end(s: Seq<char>) -> Seq<char>
    decreases s.len(),
{
    if s.len() > 0 && white_space(s.last()) {
        trim_end(s.drop_last())
    } else {
        s
    }
}

/// What `str::trim` leaves of a text: the text without its leading and trailing
/// white space.
pub open spec fn trimmed(s: Seq<char>) -> Seq<char> {
    trim_end(trim_start(s))
}

/// `str::trim`: as documented, the text with leading and trailing white space
/// removed, white space being Unicode's `White_Space` property (`white_space`).
#[verifier::external_body]
pub(crate) fn trim_text(s: &str) -> (res: String)
    ensures
        res@ == trimmed(s@),
{
    s.trim().to_string()
}

/// What `{:?}` prints for a `std::path::Path` made from the text.
pub uninterp spec fn path_debug_text(p: Seq<char>) -> Seq<char>;

/// `<Path as Debug>::fmt`, as `format!("{:?}", path)` writes it: the path in
/// quotes with special characters escaped. The result is named
/// `path_debug_text`; the escaping rules are not restated here.
#[verifier::external_body]
pub(crate) fn path_debug(p: &str) -> (res: String)
    ensures
        res@ == path_debug_text(p@),
{
    format!("{:?}", std::path::Path::new(p))
}

/// The views of a sequence of strings.
pub open spec fn texts(v: Seq<String>) -> Seq<Seq<char>> {
    v.map_values(|s: String| s@)
}

/// Whether `v` holds a string equal to `s`.
pub fn contains_text(v: &Vec<String>, s: &String) -> (res: bool)
    ensures
        res == texts(v@).contains(s@),
{
    let mut i: usize = 0;
    while i < v.len()
        invariant
            i <= v@.len(),
            forall|j: int| 0 <= j < i ==> texts(v@)[j] != s@,
        decreases v@.len() - i,
    {
        if v[i] == *s {
            assert(texts(v@)[i as int] == s@);
            return true;
        }
        i = i + 1;
    }
    assert(!texts(v@).contains(s@)) by {
        if texts(v@).contains(s@) {
            let j = choose|j: int| 0 <= j < texts(v@).len() && texts(v@)[j] == s@;
            assert(texts(v@)[j] != s@);
        }
    }
    false
}

/// The text with each repeated entry after its first occurrence left out.
pub open spec fn distinct(s: Seq<Seq<char>>) -> Seq<Seq<char>>
    decreases s.len(),
{
    if s.len() == 0 {
        s
    } else {
        let r = distinct(s.drop_last());
        if r.contains(s.last()) {
            r
        } else {
            r.push(s.last())
        }
    }
}

/// `distinct` keeps exactly the entries of its argument, each once.
pub proof fn lemma_distinct(s: Seq<Seq<char>>)
    ensures
        distinct(s).no_duplicates(),
        forall|x: Seq<char>| #[trigger] distinct(s).contains(x) <==> s.contains(x),
    decreases s.len(),
{
    if s.len() > 0 {
        lemma_distinct(s.drop_last());
        let d = s.drop_last();
        let r = distinct(d);
        let l = s.last();
        assert forall|x: Seq<char>| s.contains(x) <==> (d.contains(x) || x == l) by {
            if s.contains(x) {
                let j = choose|j: int| 0 <= j < s.len() && s[j] == x;
                if j < s.len() - 1 {
                    assert(d[j] == x);
                }
            }
            if d.contains(x) {
                let j = choose|j: int| 0 <= j < d.len() && d[j] == x;
                assert(s[j] == x);
            }
            if x == l {
                assert(s[s.len() - 1] == x);
            }
        }
        assert forall|x: Seq<char>| r.push(l).contains(x) <==> (r.contains(x) || x == l) by {
            if r.push(l).contains(x) {
                let j = choose|j: int| 0 <= j < r.push(l).len() && r.push(l)[j] == x;
                if j < r.len() {
                    assert(r[j] == x);
                }
            }
            if r.contains(x) {
                let j = choose|j: int| 0 <= j < r.len() && r[j] == x;
                assert(r.push(l)[j] == x);
            }
            if x == l {
                assert(r.push(l)[r.len() as int] == x);
            }
        }
        assert forall|x: Seq<char>| #[trigger] distinct(s).contains(x) <==> s.contains(x) by {
            assert(r.contains(x) <==> d.contains(x));
            if r.contains(l) {
                assert(distinct(s) == r);
                if x == l {
                    assert(d.contains(x));
                }
            } else {
                assert(distinct(s) == r.push(l));
            }
        }
        if !r.contains(s.last()) {
            assert forall|i: int, j: int|
                0 <= i < j < r.push(s.last()).len() implies r.push(s.last())[i] != r.push(
                s.last(),
            )[j] by {
                if j == r.len() {
                    assert(r[i] == r.push(s.last())[i]);
                }
            }
        }
    }
}

/// Appends to `acc` each entry of `names` that it does not hold yet.
fn push_distinct(acc: &mut Vec<String>, names: &Vec<String>, Ghost(prefix): Ghost<
    Seq<Seq<char>>,
>)
    requires
        texts(old(acc)@) == distinct(prefix),
    ensures
        texts(final(acc)@) == distinct(prefix + texts(names@)),
{
    let mut i: usize = 0;
    while i < names.len()
        invariant
            i <= names@.len(),
            texts(acc@) == distinct(prefix + texts(names@).take(i as int)),
        decreases names@.len() - i,
    {
        let ghost before = prefix + texts(names@).take(i as int);
        let ghost after = prefix + texts(names@).take(i + 1);
        assert(after.drop_last() =~= before);
        assert(after.last() == names@[i as int]@);
        if !contains_text(acc, &names[i]) {
            acc.push(names[i].clone());
            assert(texts(acc@) =~= distinct(before).push(names@[i as int]@));
        }
        i = i + 1;
    }
    assert(texts(names@).take(names@.len() as int) =~= texts(names@));
}

/// The entries of both lists, each once, first those of `first` in order and
/// then the new ones of `second`.
pub fn union_texts(first: &Vec<String>, second: &Vec<String>) -> (res: Vec<String>)
    ensures
        texts(res@) == distinct(texts(first@) + texts(second@)),
{
    let mut acc: Vec<String> = Vec::new();
    assert(texts(acc@) =~= distinct(Seq::<Seq<char>>::empty()));
    push_distinct(&mut acc, first, Ghost(Seq::<Seq<char>>::empty()));
    assert(Seq::<Seq<char>>::empty() + texts(first@) =~= texts(first@));
    push_distinct(&mut acc, second, Ghost(texts(first@)));
    acc
}

} // verus!

verus! {

/// The characters of the text in order.
pub fn chars_of(s: &str) -> (res: Vec<char>)
    ensures
        res@ == s@,
{
    broadcast use vstd::string::group_string_axioms;

    let mut it = s.chars();
    let mut res: Vec<char> = Vec::new();
    loop
        invariant
            res@ + it.remaining() == s@,
            it.decrease() is Some,
        ensures
            res@ == s@,
        decreases it.decrease()->0,
    {
        match it.next() {
            Some(c) => {
                res.push(c);
                assert(res@ + it.remaining() =~= s@);
            },
            None => {
                assert(res@ =~= s@);
                break ;
            },
        }
    }
    res
}

/// The character of a decimal digit.
pub open spec fn digit_char(d: int) -> char {
    (48 + d) as char
}

/// The decimal notation of a natural number, without leading zeros.
pub open spec fn decimal_text(n: nat) -> Seq<char>
    decreases n,
{
    if n < 10 {
        seq![digit_char(n as int)]
    } else {
        decimal_text(n / 10).push(digit_char((n % 10) as int))
    }
}

/// The one-character text of a decimal digit.
fn digit_text(d: usize) -> (res: &'static str)
    requires
        d < 10,
    ensures
        res@ == seq![digit_char(d as int)],
{
    let t: &'static str = match d {
        0 => "0",
        1 => "1",
        2 => "2",
        3 => "3",
        4 => "4",
        5 => "5",
        6 => "6",
        7 => "7",
        8 => "8",
        _ => "9",
    };
    proof {
        reveal_strlit("0");
        reveal_strlit("1");
        reveal_strlit("2");
        reveal_strlit("3");
        reveal_strlit("4");
        reveal_strlit("5");
        reveal_strlit("6");
        reveal_strlit("7");
        reveal_strlit("8");
        reveal_strlit("9");
        assert(t@ =~= seq![digit_char(d as int)]);
    }
    t
}

/// Appends the decimal notation of `n`.
fn push_decimal(out: &mut String, n: usize)
    ensures
        final(out)@ == old(out)@ + decimal_text(n as nat),
    decreases n,
{
    if n >= 10 {
        push_decimal(out, n / 10);
    }
    out.append(digit_text(n % 10));
    assert(decimal_text(n as nat) == if n < 10 {
        seq![digit_char(n as int)]
    } else {
        decimal_text((n / 10) as nat).push(digit_char((n % 10) as int))
    });
    assert(final(out)@ =~= old(out)@ + decimal_text(n as nat));
}

/// The decimal notation of `n`, as `{}` formats an unsigned integer.
pub fn decimal(n: usize) -> (res: String)
    ensures
        res@ == decimal_text(n as nat),
{
    let mut out = String::new();
    push_decimal(&mut out, n);
    assert(out@ =~= decimal_text(n as nat));
    out
}

} // verus!
