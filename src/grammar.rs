use vstd::prelude::*;

verus! {

/// A statement of the compact syntax.
#[derive(PartialEq, Eq, Debug, Clone)]
pub enum ShExStatement {
    PrefixDecl { alias: String, iri: String },
}

/// The input does not start with what was expected.
#[derive(PartialEq, Eq, Debug, Clone)]
pub struct ParseError {
    pub position: usize,
}

pub open spec fn spec_not_eol(c: char) -> bool {
    c != '\n' && c != '\r'
}

pub open spec fn spec_is_ws(c: char) -> bool {
    c == ' ' || c == '\t' || c == '\n' || c == '\r'
}

pub open spec fn spec_in_range(c: char, lower: u32, upper: u32) -> bool {
    lower <= c as u32 <= upper
}

pub open spec fn spec_is_alpha(c: char) -> bool {
    ('a' <= c && c <= 'z') || ('A' <= c && c <= 'Z')
}

pub open spec fn spec_is_digit(c: char) -> bool {
    '0' <= c && c <= '9'
}

/// `PN_CHARS_BASE`: a letter, or a character of the listed Unicode ranges.
pub open spec fn spec_is_pn_chars_base(c: char) -> bool {
    spec_is_alpha(c) || spec_in_range(c, 0xC0, 0xD6) || spec_in_range(c, 0xD8, 0xF6) || spec_in_range(c, 0xF8, 0x2FF)
        || spec_in_range(c, 0x370, 0x37D) || spec_in_range(c, 0x37F, 0x1FFF) || spec_in_range(c, 0x200C, 0x200D)
        || spec_in_range(c, 0x2070, 0x218F) || spec_in_range(c, 0x2C00, 0x2FEF) || spec_in_range(c, 0x3001, 0xD7FF)
        || spec_in_range(c, 0xF900, 0xFDCF) || spec_in_range(c, 0xFDF0, 0xFFFD) || spec_in_range(c, 0x10000, 0xEFFFF)
}

/// `PN_CHARS_U`: `PN_CHARS_BASE` or `_`.
pub open spec fn spec_is_pn_chars_u(c: char) -> bool {
    c == '_' || spec_is_pn_chars_base(c)
}

/// `PN_CHARS`: `PN_CHARS_U`, `-`, a digit, U+00B7, or the listed ranges.
pub open spec fn spec_is_pn_chars(c: char) -> bool {
    spec_is_pn_chars_u(c) || c == '-' || spec_is_digit(c) || c as u32 == 0xB7 || spec_in_range(c, 0x300, 0x36F)
        || spec_in_range(c, 0x203F, 0x2040)
}

/// A character allowed inside `<...>`: above the space, and none of `<>"{}|^` and backquote.
pub open spec fn spec_is_iri_ref(c: char) -> bool {
    c > ' ' && c != '<' && c != '>' && c != '"' && c != '{' && c != '}' && c != '|' && c != '^' && c != '`'
}

/// The first position from `k` on that holds a line end, or the length.
pub open spec fn eol_from(s: Seq<char>, k: int) -> int
    decreases s.len() - k,
{
    if k < 0 || k >= s.len() {
        s.len() as int
    } else if !spec_not_eol(s[k]) {
        k
    } else {
        eol_from(s, k + 1)
    }
}

/// A comment at the start of `s`: `#` up to the line end. Gives what follows the comment,
/// without one line-end character, and the comment's text.
pub open spec fn comment_spec(s: Seq<char>) -> Option<(Seq<char>, Seq<char>)> {
    if s.len() > 0 && s[0] == '#' {
        let k = eol_from(s, 1);
        Some(
            (
                if k == s.len() {
                    Seq::empty()
                } else {
                    s.subrange(k + 1, s.len() as int)
                },
                s.subrange(1, k),
            ),
        )
    } else {
        None
    }
}

/// Where white space and comments that start at `k` end; `in_comment` tells that a
/// comment is open at `k`. A comment runs from `#` up to and including one line-end
/// character.
pub open spec fn tws_from(s: Seq<char>, k: int, in_comment: bool) -> int
    decreases s.len() - k,
{
    if k < 0 || k >= s.len() {
        if k < 0 {
            k
        } else {
            s.len() as int
        }
    } else if in_comment {
        tws_from(s, k + 1, spec_not_eol(s[k]))
    } else if spec_is_ws(s[k]) {
        tws_from(s, k + 1, false)
    } else if s[k] == '#' {
        tws_from(s, k + 1, true)
    } else {
        k
    }
}

/// The end of the white space and comments that start at `k`.
pub open spec fn tws_end(s: Seq<char>, k: int) -> int {
    tws_from(s, k, false)
}

/// The end of the rest of a `PN_PREFIX` from `k`: `PN_CHARS`, and `.` each followed by
/// one of them.
pub open spec fn pn_tail_end(s: Seq<char>, k: int) -> int
    decreases s.len() - k,
{
    if 0 <= k < s.len() && spec_is_pn_chars(s[k]) {
        pn_tail_end(s, k + 1)
    } else if 0 <= k && k + 1 < s.len() && s[k] == '.' && spec_is_pn_chars(s[k + 1]) {
        pn_tail_end(s, k + 2)
    } else {
        k
    }
}

/// The end of a `PN_PREFIX` that starts at `k`, if one does.
pub open spec fn pn_prefix_end(s: Seq<char>, k: int) -> Option<int> {
    if 0 <= k < s.len() && spec_is_pn_chars_base(s[k]) {
        Some(pn_tail_end(s, k + 1))
    } else {
        None
    }
}

/// A `PNAME_NS` at `k`: an optional prefix and `:`. Gives the end of the prefix and the
/// position after the colon.
pub open spec fn pname_ns_spec(s: Seq<char>, k: int) -> Option<(int, int)> {
    let pe = match pn_prefix_end(s, k) {
        Some(e) => e,
        None => k,
    };
    if 0 <= pe < s.len() && s[pe] == ':' {
        Some((pe, pe + 1))
    } else {
        None
    }
}

/// The end of the run of IRI characters that starts at `k`.
pub open spec fn iri_chars_end(s: Seq<char>, k: int) -> int
    decreases s.len() - k,
{
    if 0 <= k < s.len() && spec_is_iri_ref(s[k]) {
        iri_chars_end(s, k + 1)
    } else {
        k
    }
}

/// An `IRIREF` at `k`: `<`, IRI characters, `>`. Gives the end of the IRI characters and
/// the position after `>`.
pub open spec fn iri_ref_spec(s: Seq<char>, k: int) -> Option<(int, int)> {
    if 0 <= k < s.len() && s[k] == '<' {
        let e = iri_chars_end(s, k + 1);
        if e < s.len() && s[e] == '>' {
            Some((e, e + 1))
        } else {
            None
        }
    } else {
        None
    }
}

/// The keyword `PREFIX`, in any case, at `k`.
pub open spec fn prefix_keyword_at(s: Seq<char>, k: int) -> bool {
    0 <= k && k + 6 <= s.len() && forall|i: int|
        0 <= i < 6 ==> #[trigger] s[k + i] == seq!['P', 'R', 'E', 'F', 'I', 'X'][i] || s[k + i] == seq![
            'p',
            'r',
            'e',
            'f',
            'i',
            'x',
        ][i]
}

/// A prefix declaration at `k`: `PREFIX`, white space, `PNAME_NS`, white space, `IRIREF`.
/// Gives the bounds of the alias, the bounds of the IRI and the position after it.
pub open spec fn prefix_decl_spec(s: Seq<char>, k: int) -> Option<(int, int, int, int, int)> {
    if prefix_keyword_at(s, k) {
        let a = tws_end(s, k + 6);
        match pname_ns_spec(s, a) {
            Some((pe, ac)) => {
                let b = tws_end(s, ac);
                match iri_ref_spec(s, b) {
                    Some((ie, nx)) => Some((a, pe, b + 1, ie, nx)),
                    None => None,
                }
            },
            None => None,
        }
    } else {
        None
    }
}

/// The prefix declarations that follow one another from `k`, each as the bounds of its
/// alias and of its IRI, and where they end.
pub open spec fn directives_spec(s: Seq<char>, k: int) -> (Seq<(int, int, int, int)>, int)
    decreases s.len() - k,
{
    match prefix_decl_spec(s, k) {
        Some((a, pe, b, ie, nx)) => if k < nx <= s.len() {
            let (rest, end) = directives_spec(s, nx);
            (seq![(a, pe, b, ie)] + rest, end)
        } else {
            (Seq::empty(), k)
        },
        None => (Seq::empty(), k),
    }
}

/// `st` is the prefix declaration with the alias and IRI at the bounds `d` of `s`.
pub open spec fn statement_at(s: Seq<char>, d: (int, int, int, int), st: ShExStatement) -> bool {
    st matches ShExStatement::PrefixDecl { alias, iri } && alias@ == s.subrange(d.0, d.1) && iri@ == s.subrange(
        d.2,
        d.3,
    )
}

pub fn not_eol(c: char) -> (r: bool)
    ensures
        r == spec_not_eol(c),
{
    c != '\n' && c != '\r'
}

pub fn is_alpha(c: char) -> (r: bool)
    ensures
        r == spec_is_alpha(c),
{
    (c >= 'a' && c <= 'z') || (c >= 'A' && c <= 'Z')
}

pub fn is_digit(c: char) -> (r: bool)
    ensures
        r == spec_is_digit(c),
{
    c >= '0' && c <= '9'
}

pub fn in_range(c: char, lower: u32, upper: u32) -> (r: bool)
    ensures
        r == spec_in_range(c, lower, upper),
{
    c as u32 >= lower && c as u32 <= upper
}

pub fn is_pn_chars_base(c: char) -> (r: bool)
    ensures
        r == spec_is_pn_chars_base(c),
{
    is_alpha(c) || in_range(c, 0xC0, 0xD6) || in_range(c, 0xD8, 0xF6) || in_range(c, 0xF8, 0x2FF) || in_range(
        c,
        0x370,
        0x37D,
    ) || in_range(c, 0x37F, 0x1FFF) || in_range(c, 0x200C, 0x200D) || in_range(c, 0x2070, 0x218F) || in_range(
        c,
        0x2C00,
        0x2FEF,
    ) || in_range(c, 0x3001, 0xD7FF) || in_range(c, 0xF900, 0xFDCF) || in_range(c, 0xFDF0, 0xFFFD) || in_range(
        c,
        0x10000,
        0xEFFFF,
    )
}

pub fn is_pn_chars_u(c: char) -> (r: bool)
    ensures
        r == spec_is_pn_chars_u(c),
{
    c == '_' || is_pn_chars_base(c)
}

pub fn is_pn_chars(c: char) -> (r: bool)
    ensures
        r == spec_is_pn_chars(c),
{
    is_pn_chars_u(c) || c == '-' || is_digit(c) || c as u32 == 0xB7 || in_range(c, 0x300, 0x36F) || in_range(
        c,
        0x203F,
        0x2040,
    )
}

pub fn is_iri_ref(c: char) -> (r: bool)
    ensures
        r == spec_is_iri_ref(c),
{
    c > ' ' && c != '<' && c != '>' && c != '"' && c != '{' && c != '}' && c != '|' && c != '^' && c != '`'
}

fn is_ws(c: char) -> (r: bool)
    ensures
        r == spec_is_ws(c),
{
    c == ' ' || c == '\t' || c == '\n' || c == '\r'
}

fn eol_at(s: &str, k: usize) -> (r: usize)
    requires
        k <= s@.len(),
    ensures
        r as int == eol_from(s@, k as int),
        k <= r <= s@.len(),
{
    let n = s.unicode_len();
    let mut j = k;
    while j < n
        invariant
            n == s@.len(),
            k <= j <= n,
            eol_from(s@, k as int) == eol_from(s@, j as int),
        decreases n - j,
    {
        if !not_eol(s.get_char(j)) {
            return j;
        }
        j = j + 1;
    }
    j
}

fn tws_at(s: &str, k: usize) -> (r: usize)
    requires
        k <= s@.len(),
    ensures
        r as int == tws_end(s@, k as int),
        k <= r <= s@.len(),
{
    let n = s.unicode_len();
    let mut j = k;
    let mut in_comment = false;
    while j < n
        invariant
            n == s@.len(),
            k <= j <= n,
            tws_end(s@, k as int) == tws_from(s@, j as int, in_comment),
        decreases n - j,
    {
        let c = s.get_char(j);
        if in_comment {
            in_comment = not_eol(c);
        } else if is_ws(c) {
            in_comment = false;
        } else if c == '#' {
            in_comment = true;
        } else {
            return j;
        }
        j = j + 1;
    }
    j
}

fn iri_chars_at(s: &str, k: usize) -> (r: usize)
    requires
        k <= s@.len(),
    ensures
        r as int == iri_chars_end(s@, k as int),
        k <= r <= s@.len(),
{
    let n = s.unicode_len();
    let mut j = k;
    while j < n
        invariant
            n == s@.len(),
            k <= j <= n,
            iri_chars_end(s@, k as int) == iri_chars_end(s@, j as int),
        decreases n - j,
    {
        if !is_iri_ref(s.get_char(j)) {
            return j;
        }
        j = j + 1;
    }
    j
}

fn pn_prefix_at(s: &str, k: usize) -> (r: Option<usize>)
    requires
        k <= s@.len(),
    ensures
        r matches Some(e) ==> pn_prefix_end(s@, k as int) == Some(e as int) && k < e <= s@.len(),
        r is None <==> pn_prefix_end(s@, k as int) is None,
{
    let n = s.unicode_len();
    if k >= n || !is_pn_chars_base(s.get_char(k)) {
        return None;
    }
    let mut j = k + 1;
    while j < n
        invariant
            n == s@.len(),
            k < j <= n,
            spec_is_pn_chars_base(s@[k as int]),
            pn_tail_end(s@, k + 1) == pn_tail_end(s@, j as int),
        decreases n - j,
    {
        if is_pn_chars(s.get_char(j)) {
            j = j + 1;
        } else if j + 1 < n && s.get_char(j) == '.' && is_pn_chars(s.get_char(j + 1)) {
            j = j + 2;
        } else {
            return Some(j);
        }
    }
    Some(j)
}

fn pname_ns_at(s: &str, k: usize) -> (r: Option<(usize, usize)>)
    requires
        k <= s@.len(),
    ensures
        r matches Some((pe, ac)) ==> pname_ns_spec(s@, k as int) == Some((pe as int, ac as int)) && k <= pe < ac <= s@.len(),
        r is None <==> pname_ns_spec(s@, k as int) is None,
{
    let pe = match pn_prefix_at(s, k) {
        Some(e) => e,
        None => k,
    };
    if pe < s.unicode_len() && s.get_char(pe) == ':' {
        Some((pe, pe + 1))
    } else {
        None
    }
}

fn iri_ref_at(s: &str, k: usize) -> (r: Option<(usize, usize)>)
    requires
        k <= s@.len(),
    ensures
        r matches Some((ie, nx)) ==> iri_ref_spec(s@, k as int) == Some((ie as int, nx as int)) && k < ie < nx <= s@.len(),
        r is None <==> iri_ref_spec(s@, k as int) is None,
{
    let n = s.unicode_len();
    if k < n && s.get_char(k) == '<' {
        let e = iri_chars_at(s, k + 1);
        if e < n && s.get_char(e) == '>' {
            Some((e, e + 1))
        } else {
            None
        }
    } else {
        None
    }
}

fn prefix_keyword(s: &str, k: usize) -> (r: bool)
    requires
        k <= s@.len(),
    ensures
        r == prefix_keyword_at(s@, k as int),
{
    let n = s.unicode_len();
    if n - k < 6 {
        return false;
    }
    let up = ['P', 'R', 'E', 'F', 'I', 'X'];
    let low = ['p', 'r', 'e', 'f', 'i', 'x'];
    let mut i: usize = 0;
    while i < 6
        invariant
            n == s@.len(),
            k + 6 <= n,
            i <= 6,
            up@ == seq!['P', 'R', 'E', 'F', 'I', 'X'],
            low@ == seq!['p', 'r', 'e', 'f', 'i', 'x'],
            forall|j: int| 0 <= j < i ==> #[trigger] s@[k + j] == up@[j] || s@[k + j] == low@[j],
        decreases 6 - i,
    {
        let c = s.get_char(k + i);
        if c != up[i] && c != low[i] {
            return false;
        }
        i = i + 1;
    }
    true
}

fn prefix_decl_at(s: &str, k: usize) -> (r: Option<(usize, usize, usize, usize, usize)>)
    requires
        k <= s@.len(),
    ensures
        r matches Some((a, pe, b, ie, nx)) ==> prefix_decl_spec(s@, k as int) == Some(
            (a as int, pe as int, b as int, ie as int, nx as int),
        ) && k < nx <= s@.len() && a <= pe <= s@.len() && b <= ie <= s@.len(),
        r is None <==> prefix_decl_spec(s@, k as int) is None,
{
    let n = s.unicode_len();
    if !prefix_keyword(s, k) {
        return None;
    }
    assert(k + 6 <= n);
    let a = tws_at(s, k + 6);
    match pname_ns_at(s, a) {
        Some((pe, ac)) => {
            let b = tws_at(s, ac);
            match iri_ref_at(s, b) {
                Some((ie, nx)) => Some((a, pe, b + 1, ie, nx)),
                None => None,
            }
        },
        None => None,
    }
}

/// A comment at the start of `i`: gives what follows it, without one line-end character,
/// and its text.
pub fn comment(i: &str) -> (r: Result<(String, String), ParseError>)
    ensures
        comment_spec(i@) matches Some((rest, text)) ==> (r matches Ok((x, y)) && x@ == rest && y@ == text),
        comment_spec(i@) is None ==> r is Err,
{
    let n = i.unicode_len();
    if n == 0 || i.get_char(0) != '#' {
        return Err(ParseError { position: 0 });
    }
    let k = eol_at(i, 1);
    let text = String::from_str(i.substring_char(1, k));
    let rest = if k == n {
        let e = String::new();
        e
    } else {
        String::from_str(i.substring_char(k + 1, n))
    };
    Ok((rest, text))
}

/// Skips white space and comments at the start of `i`; gives what follows them.
pub fn tws(i: &str) -> (r: String)
    ensures
        r@ == i@.subrange(tws_end(i@, 0), i@.len() as int),
{
    let k = tws_at(i, 0);
    String::from_str(i.substring_char(k, i.unicode_len()))
}

/// A prefix declaration at the start of `i`: `PREFIX alias: <iri>`. Gives what follows it
/// and the declaration.
pub fn prefix_decl(i: &str) -> (r: Result<(String, ShExStatement), ParseError>)
    ensures
        prefix_decl_spec(i@, 0) matches Some((a, pe, b, ie, nx)) ==> (r matches Ok((rest, st)) && rest@
            == i@.subrange(nx, i@.len() as int) && statement_at(i@, (a, pe, b, ie), st)),
        prefix_decl_spec(i@, 0) is None ==> r is Err,
{
    match prefix_decl_at(i, 0) {
        Some((a, pe, b, ie, nx)) => {
            let alias = String::from_str(i.substring_char(a, pe));
            let iri = String::from_str(i.substring_char(b, ie));
            let rest = String::from_str(i.substring_char(nx, i.unicode_len()));
            Ok((rest, ShExStatement::PrefixDecl { alias, iri }))
        },
        None => Err(ParseError { position: 0 }),
    }
}

/// A directive at the start of `i`; only prefix declarations are read.
pub fn directive(i: &str) -> (r: Result<(String, ShExStatement), ParseError>)
    ensures
        prefix_decl_spec(i@, 0) matches Some((a, pe, b, ie, nx)) ==> (r matches Ok((rest, st)) && rest@
            == i@.subrange(nx, i@.len() as int) && statement_at(i@, (a, pe, b, ie), st)),
        prefix_decl_spec(i@, 0) is None ==> r is Err,
{
    prefix_decl(i)
}

/// The directives that follow one another at the start of `i`, as many as there are, and
/// what follows them.
pub fn directives(i: &str) -> (r: Result<(String, Vec<ShExStatement>), ParseError>)
    ensures
        r matches Ok((rest, sts)) && rest@ == i@.subrange(directives_spec(i@, 0).1, i@.len() as int)
            && sts@.len() == directives_spec(i@, 0).0.len() && forall|m: int|
            0 <= m < sts@.len() ==> statement_at(i@, directives_spec(i@, 0).0[m], #[trigger] sts@[m]),
{
    let n = i.unicode_len();
    let mut sts: Vec<ShExStatement> = Vec::new();
    let ghost mut done: Seq<(int, int, int, int)> = Seq::empty();
    let mut j: usize = 0;
    let mut more = true;
    while more
        invariant
            n == i@.len(),
            j <= n,
            directives_spec(i@, 0).0 == done + directives_spec(i@, j as int).0,
            directives_spec(i@, 0).1 == directives_spec(i@, j as int).1,
            !more ==> directives_spec(i@, j as int) == (Seq::<(int, int, int, int)>::empty(), j as int),
            sts@.len() == done.len(),
            forall|m: int| 0 <= m < sts@.len() ==> statement_at(i@, done[m], #[trigger] sts@[m]),
        decreases n - j + if more {
            1int
        } else {
            0int
        },
    {
        match prefix_decl_at(i, j) {
            Some((a, pe, b, ie, nx)) => {
                let alias = String::from_str(i.substring_char(a, pe));
                let iri = String::from_str(i.substring_char(b, ie));
                sts.push(ShExStatement::PrefixDecl { alias, iri });
                proof {
                    let d = (a as int, pe as int, b as int, ie as int);
                    assert(directives_spec(i@, j as int).0 == seq![d] + directives_spec(i@, nx as int).0);
                    assert(done.push(d) + directives_spec(i@, nx as int).0 =~= done + (seq![d] + directives_spec(i@, nx as int).0));
                    done = done.push(d);
                }
                j = nx;
            },
            None => {
                more = false;
            },
        }
    }
    assert(done + Seq::<(int, int, int, int)>::empty() =~= done);
    let rest = String::from_str(i.substring_char(j, n));
    Ok((rest, sts))
}

/// The statements at the start of a schema document; only its directives are read.
pub fn shex_statement(i: &str) -> (r: Result<(String, Vec<ShExStatement>), ParseError>)
    ensures
        r matches Ok((rest, sts)) && rest@ == i@.subrange(directives_spec(i@, 0).1, i@.len() as int)
            && sts@.len() == directives_spec(i@, 0).0.len() && forall|m: int|
            0 <= m < sts@.len() ==> statement_at(i@, directives_spec(i@, 0).0[m], #[trigger] sts@[m]),
{
    directives(i)
}

} // verus!
