use vstd::prelude::*;

verus! {

use crate::text::has_prefix;
use vstd::string::{StrSliceExecFns, StringExecFns};

/// The credentials and endpoint the client talks to the remote side
/// with, as the setup prompt edits them. A value never set reads
/// `None`.
#[derive(Debug)]
pub struct ConfigureValue {
    pub region: String,
    pub endpoint: String,
    pub access_key: String,
    pub secret_key: String,
}

/// The mathematical content of a [`ConfigureValue`].
pub ghost struct CredView {
    pub region: Seq<char>,
    pub endpoint: Seq<char>,
    pub access_key: Seq<char>,
    pub secret_key: Seq<char>,
}

impl View for ConfigureValue {
    type V = CredView;

    open spec fn view(&self) -> CredView {
        CredView {
            region: self.region@,
            endpoint: self.endpoint@,
            access_key: self.access_key@,
            secret_key: self.secret_key@,
        }
    }
}

/// The values before any line of the credentials file is read.
pub open spec fn init_cred() -> CredView {
    CredView {
        region: "None"@,
        endpoint: "None"@,
        access_key: "None"@,
        secret_key: "None"@,
    }
}

/// A `"= "` separator starts at position `i`.
pub open spec fn sep_at(s: Seq<char>, i: int) -> bool {
    0 <= i && i + 2 <= s.len() && s[i] == '=' && s[i + 1] == ' '
}

/// The first position at or after `from` where a separator starts, or
/// the length of `s` when none does.
pub open spec fn find_sep(s: Seq<char>, from: int) -> int
    recommends
        0 <= from,
    decreases s.len() - from,
{
    if from < 0 || from + 2 > s.len() {
        s.len() as int
    } else if s[from] == '=' && s[from + 1] == ' ' {
        from
    } else {
        find_sep(s, from + 1)
    }
}

/// Where `find_sep` lands: between `from` and the end, on a separator
/// if it found one, with no separator before it.
pub proof fn lemma_find_sep_bounds(s: Seq<char>, from: int)
    requires
        0 <= from <= s.len(),
    ensures
        from <= find_sep(s, from) <= s.len(),
        find_sep(s, from) < s.len() ==> sep_at(s, find_sep(s, from)),
        forall|m: int| from <= m < find_sep(s, from) ==> !sep_at(s, m),
    decreases s.len() - from,
{
    if from + 2 <= s.len() && !(s[from] == '=' && s[from + 1] == ' ') {
        lemma_find_sep_bounds(s, from + 1);
    }
}

/// The first position at or after `from` where a `"= "` separator
/// starts, or the length of `s` when none does.
fn find_sep_at(s: &str, from: usize) -> (r: usize)
    requires
        from <= s@.len(),
    ensures
        r == find_sep(s@, from as int),
{
    let n = s.unicode_len();
    let mut i = from;
    while n - i >= 2
        invariant
            from <= i <= n,
            n == s@.len(),
            find_sep(s@, from as int) == find_sep(s@, i as int),
        decreases n - i,
    {
        if s.get_char(i) == '=' && s.get_char(i + 1) == ' ' {
            return i;
        }
        i = i + 1;
    }
    n
}

/// The piece of `s` between its first separator and its second (or its
/// end): what `parse_line` extracts.
pub open spec fn second_piece(s: Seq<char>) -> Seq<char> {
    let first = find_sep(s, 0);
    if first < s.len() {
        s.subrange(first + 2, find_sep(s, first + 2))
    } else {
        Seq::empty()
    }
}

/// The state after the line is read: a line carrying one of the four
/// keys overwrites that value with the line's extracted piece; any
/// other line changes nothing.
pub open spec fn apply_line(st: CredView, l: Seq<char>) -> CredView {
    if has_prefix(l, "aws_access_key_id"@) {
        CredView { access_key: second_piece(l), ..st }
    } else if has_prefix(l, "aws_secret_access_key"@) {
        CredView { secret_key: second_piece(l), ..st }
    } else if has_prefix(l, "region"@) {
        CredView { region: second_piece(l), ..st }
    } else if has_prefix(l, "endpoint"@) {
        CredView { endpoint: second_piece(l), ..st }
    } else {
        st
    }
}

/// The state after the first `k` lines, the leading section header
/// skipped.
pub open spec fn fold_lines(lines: Seq<Seq<char>>, k: int) -> CredView
    decreases k,
{
    if k <= 1 {
        init_cred()
    } else {
        apply_line(fold_lines(lines, k - 1), lines[k - 1])
    }
}

/// A line the reader can take apart: if it carries one of the four
/// keys, it holds a separator.
pub open spec fn line_ok(l: Seq<char>) -> bool {
    (has_prefix(l, "aws_access_key_id"@) || has_prefix(l, "aws_secret_access_key"@) || has_prefix(
        l,
        "region"@,
    ) || has_prefix(l, "endpoint"@)) ==> find_sep(l, 0) < l.len()
}

impl ConfigureValue {
    /// All four values unset.
    pub fn new() -> (r: ConfigureValue)
        ensures
            r@ == init_cred(),
    {
        let none = "None".to_owned();
        ConfigureValue {
            region: none.clone(),
            endpoint: none.clone(),
            access_key: none.clone(),
            secret_key: none,
        }
    }

    /// Extracts a line's value: the piece between the first `"= "` and
    /// the next one or the end of the line.
    pub fn parse_line(&self, line: String) -> (r: String)
        requires
            find_sep(line@, 0) < line@.len(),
        ensures
            r@ == second_piece(line@),
    {
        let s = line.as_str();
        let _n = s.unicode_len();
        proof {
            lemma_find_sep_bounds(s@, 0);
        }
        let first = find_sep_at(s, 0);
        proof {
            lemma_find_sep_bounds(s@, first + 2);
        }
        let second = find_sep_at(s, first + 2);
        s.substring_char(first + 2, second).to_owned()
    }

    /// Reads the lines of a credentials file, the leading section
    /// header skipped: each line carrying one of the four keys
    /// overwrites that value; later lines win.
    pub fn from_lines(lines: &Vec<String>) -> (r: ConfigureValue)
        requires
            forall|i: int| 1 <= i < lines@.len() ==> line_ok(#[trigger] lines@[i]@),
        ensures
            r@ == fold_lines(lines.deep_view(), lines@.len() as int),
    {
        let mut value = ConfigureValue::new();
        let mut i: usize = 1;
        while i < lines.len()
            invariant
                1 <= i,
                i <= lines@.len() || i == 1,
                forall|j: int| 1 <= j < lines@.len() ==> line_ok(#[trigger] lines@[j]@),
                value@ == fold_lines(lines.deep_view(), i as int),
            decreases lines@.len() - i,
        {
            let l = &lines[i];
            proof {
                assert(lines.deep_view()[i as int] == lines@[i as int]@);
            }
            if crate::text::str_has_prefix(l.as_str(), "aws_access_key_id") {
                value.access_key = value.parse_line(lines[i].clone());
            } else if crate::text::str_has_prefix(l.as_str(), "aws_secret_access_key") {
                value.secret_key = value.parse_line(lines[i].clone());
            } else if crate::text::str_has_prefix(l.as_str(), "region") {
                value.region = value.parse_line(lines[i].clone());
            } else if crate::text::str_has_prefix(l.as_str(), "endpoint") {
                value.endpoint = value.parse_line(lines[i].clone());
            }
            i = i + 1;
        }
        value
    }

    /// The text the credentials file is written from: the section
    /// header and the four values, one key per line.
    pub fn to_text(&self) -> (r: String)
        ensures
            r@ == "[default]\naws_access_key_id = "@ + self.access_key@
                + "\naws_secret_access_key = "@ + self.secret_key@ + "\nregion = "@ + self.region@
                + "\nendpoint = "@ + self.endpoint@,
    {
        let mut s = "[default]\naws_access_key_id = ".to_owned();
        s.append(self.access_key.as_str());
        s.append("\naws_secret_access_key = ");
        s.append(self.secret_key.as_str());
        s.append("\nregion = ");
        s.append(self.region.as_str());
        s.append("\nendpoint = ");
        s.append(self.endpoint.as_str());
        s
    }
}

} // verus!
