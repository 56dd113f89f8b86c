//! Local asset paths and page URLs, built from their parts.
use vstd::prelude::*;
use crate::catalog::digits_value;

verus! {

pub open spec fn digit_char(d: nat) -> char {
    if d == 0 { '0' }
    else if d == 1 { '1' }
    else if d == 2 { '2' }
    else if d == 3 { '3' }
    else if d == 4 { '4' }
    else if d == 5 { '5' }
    else if d == 6 { '6' }
    else if d == 7 { '7' }
    else if d == 8 { '8' }
    else { '9' }
}

/// The decimal numeral of `n`, without leading zeros.
pub open spec fn decimal(n: nat) -> Seq<char>
    decreases n,
{
    if n < 10 {
        seq![digit_char(n)]
    } else {
        decimal(n / 10).push(digit_char(n % 10))
    }
}

/// `<chapterId>/<pageNumber>.jpg`: where a page's asset lies under the root.
pub open spec fn asset_relative(chapter_id: Seq<char>, n: u64) -> Seq<char> {
    chapter_id + seq!['/'] + decimal(n as nat) + seq!['.', 'j', 'p', 'g']
}

/// `<root>/<chapterId>/<pageNumber>.jpg`.
pub open spec fn asset_path_of(root: Seq<char>, chapter_id: Seq<char>, n: u64) -> Seq<char> {
    root + seq!['/'] + asset_relative(chapter_id, n)
}

/// Where a download is written before it is renamed into place.
pub open spec fn temp_path_of(root: Seq<char>, chapter_id: Seq<char>, n: u64) -> Seq<char> {
    asset_path_of(root, chapter_id, n) + seq!['.', 'p', 'a', 'r', 't']
}

pub open spec fn starts_with(s: Seq<char>, prefix: Seq<char>) -> bool {
    prefix.len() <= s.len() && s.take(prefix.len() as int) == prefix
}

/// Whether a link is already absolute.
pub open spec fn is_absolute(href: Seq<char>) -> bool {
    starts_with(href, seq!['h', 't', 't', 'p', ':', '/', '/']) || starts_with(
        href,
        seq!['h', 't', 't', 'p', 's', ':', '/', '/'],
    )
}

/// A link resolved against the site's base URL (its origin, no trailing `/`).
pub open spec fn url_of(base: Seq<char>, href: Seq<char>) -> Seq<char> {
    if is_absolute(href) {
        href
    } else if href.len() > 0 && href[0] == '/' {
        base + href
    } else {
        base + seq!['/'] + href
    }
}

fn digit_text(d: u64) -> (r: &'static str)
    requires
        d < 10,
    ensures
        r@ == seq![digit_char(d as nat)],
{
    proof {
        reveal_strlit("0");
        reveal_strlit("1");
        reveal_strlit("2");
        reveal_strlit("3");
        reveal_strlit("4");
        reveal_strlit("5");
        reveal_strlit("6");
        reveal_strlit("7");
        reveal_strlit("8");
        reveal_strlit("9");
    }
    if d == 0 { "0" }
    else if d == 1 { "1" }
    else if d == 2 { "2" }
    else if d == 3 { "3" }
    else if d == 4 { "4" }
    else if d == 5 { "5" }
    else if d == 6 { "6" }
    else if d == 7 { "7" }
    else if d == 8 { "8" }
    else { "9" }
}

/// Appends the decimal numeral of `n`.
pub fn push_decimal(s: &mut String, n: u64)
    ensures
        final(s)@ == old(s)@ + decimal(n as nat),
    decreases n,
{
    if n >= 10 {
        push_decimal(s, n / 10);
    }
    s.append(digit_text(n % 10));
    assert(final(s)@ =~= old(s)@ + decimal(n as nat));
}

/// The path of a page's asset relative to the output root.
pub fn asset_relative_path(chapter_id: &str, n: u64) -> (r: String)
    ensures
        r@ == asset_relative(chapter_id@, n),
{
    let mut s = String::from_str(chapter_id);
    s.append("/");
    push_decimal(&mut s, n);
    s.append(".jpg");
    proof {
        reveal_strlit("/");
        reveal_strlit(".jpg");
    }
    assert(s@ =~= asset_relative(chapter_id@, n));
    s
}

/// The deterministic path of a page's asset: `<root>/<chapterId>/<pageNumber>.jpg`.
pub fn asset_path(root: &str, chapter_id: &str, n: u64) -> (r: String)
    ensures
        r@ == asset_path_of(root@, chapter_id@, n),
{
    let rel = asset_relative_path(chapter_id, n);
    let mut s = String::from_str(root);
    s.append("/");
    s.append(rel.as_str());
    proof {
        reveal_strlit("/");
    }
    assert(s@ =~= asset_path_of(root@, chapter_id@, n));
    s
}

/// The temporary path that a page's download is written to first.
pub fn temp_path(root: &str, chapter_id: &str, n: u64) -> (r: String)
    ensures
        r@ == temp_path_of(root@, chapter_id@, n),
{
    let mut s = asset_path(root, chapter_id, n);
    s.append(".part");
    proof {
        reveal_strlit(".part");
    }
    assert(s@ =~= temp_path_of(root@, chapter_id@, n));
    s
}

/// Whether `s` begins with `prefix`.
pub fn has_prefix(s: &str, prefix: &str) -> (r: bool)
    ensures
        r == starts_with(s@, prefix@),
{
    let n = prefix.unicode_len();
    if n > s.unicode_len() {
        return false;
    }
    let mut i: usize = 0;
    while i < n
        invariant
            n == prefix@.len(),
            n <= s@.len(),
            i <= n,
            forall|m: int| 0 <= m < i ==> s@[m] == prefix@[m],
        decreases n - i,
    {
        if s.get_char(i) != prefix.get_char(i) {
            assert(s@.take(n as int)[i as int] != prefix@[i as int]);
            return false;
        }
        i = i + 1;
    }
    assert(s@.take(n as int) =~= prefix@);
    true
}

/// A link resolved against the site's base URL.
pub fn resolve_url(base: &str, href: &str) -> (r: String)
    ensures
        r@ == url_of(base@, href@),
{
    proof {
        reveal_strlit("http://");
        reveal_strlit("https://");
        reveal_strlit("/");
    }
    if has_prefix(href, "http://") || has_prefix(href, "https://") {
        assert("http://"@ =~= seq!['h', 't', 't', 'p', ':', '/', '/']);
        assert("https://"@ =~= seq!['h', 't', 't', 'p', 's', ':', '/', '/']);
        return String::from_str(href);
    }
    assert("http://"@ =~= seq!['h', 't', 't', 'p', ':', '/', '/']);
    assert("https://"@ =~= seq!['h', 't', 't', 'p', 's', ':', '/', '/']);
    let mut s = String::from_str(base);
    if href.unicode_len() > 0 && href.get_char(0) == '/' {
        s.append(href);
    } else {
        s.append("/");
        s.append(href);
    }
    s
}

/// A decimal numeral spells the number it was written for.
pub proof fn lemma_decimal_value(n: nat)
    ensures
        digits_value(decimal(n)) == n,
    decreases n,
{
    let d = n % 10;
    assert((digit_char(d) as int) - ('0' as int) == d) by {
        assert(d < 10);
    }
    let s = decimal(n);
    assert(s.last() == digit_char(d));
    if n >= 10 {
        lemma_decimal_value(n / 10);
        assert(s.drop_last() == decimal(n / 10));
        assert(n == (n / 10) * 10 + d);
    } else {
        assert(s.drop_last() =~= seq![]);
        assert(digits_value(s.drop_last()) == 0);
    }
    assert(digits_value(s) == digits_value(s.drop_last()) * 10 + ((s.last() as int - '0' as int) as nat));
}

pub open spec fn no_slash(s: Seq<char>) -> bool {
    forall|k: int| 0 <= k < s.len() ==> #[trigger] s[k] != '/'
}

proof fn lemma_split_at_slash(a: Seq<char>, b: Seq<char>, c: Seq<char>, d: Seq<char>)
    requires
        no_slash(a),
        no_slash(c),
        a + seq!['/'] + b == c + seq!['/'] + d,
    ensures
        a == c,
        b == d,
{
    let x = a + seq!['/'] + b;
    let y = c + seq!['/'] + d;
    if a.len() < c.len() {
        assert(x[a.len() as int] == '/');
        assert(y[a.len() as int] == c[a.len() as int]);
    }
    if c.len() < a.len() {
        assert(y[c.len() as int] == '/');
        assert(x[c.len() as int] == a[c.len() as int]);
    }
    assert(a =~= x.take(a.len() as int));
    assert(c =~= y.take(c.len() as int));
    assert(b =~= x.skip(a.len() as int + 1));
    assert(d =~= y.skip(c.len() as int + 1));
}

/// Distinct pages never share an asset path, where chapter identifiers hold
/// no `/`.
pub proof fn lemma_asset_paths_distinct(root: Seq<char>, c1: Seq<char>, n1: u64, c2: Seq<char>, n2: u64)
    requires
        no_slash(c1),
        no_slash(c2),
        c1 != c2 || n1 != n2,
    ensures
        asset_path_of(root, c1, n1) != asset_path_of(root, c2, n2),
{
    if asset_path_of(root, c1, n1) == asset_path_of(root, c2, n2) {
        let jpg = seq!['.', 'j', 'p', 'g'];
        let r = (root + seq!['/']).len() as int;
        let p1 = asset_path_of(root, c1, n1);
        let p2 = asset_path_of(root, c2, n2);
        assert(asset_relative(c1, n1) =~= p1.skip(r));
        assert(asset_relative(c2, n2) =~= p2.skip(r));
        assert(asset_relative(c1, n1) == c1 + seq!['/'] + (decimal(n1 as nat) + jpg));
        assert(asset_relative(c2, n2) == c2 + seq!['/'] + (decimal(n2 as nat) + jpg));
        lemma_split_at_slash(c1, decimal(n1 as nat) + jpg, c2, decimal(n2 as nat) + jpg);
        let e1 = decimal(n1 as nat) + jpg;
        assert(decimal(n1 as nat) =~= e1.take(e1.len() - 4));
        assert(decimal(n2 as nat) =~= e1.take(e1.len() - 4));
        lemma_decimal_value(n1 as nat);
        lemma_decimal_value(n2 as nat);
    }
}

} // verus!
