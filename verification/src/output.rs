//! The output directory: which files go before a cycle, and what the new
//! artifact is called.

use vstd::prelude::*;
use vstd::string::*;

verus! {

/// One entry of the output directory.
#[derive(Debug, Clone, PartialEq, Eq)]
pub struct DirEntry {
    /// The entry's path.
    pub name: String,
    /// Whether the entry is a regular file.
    pub is_file: bool,
}

/// The character of the decimal digit `d`.
pub open spec fn digit_char(d: int) -> char {
    if d == 0 {
        '0'
    } else if d == 1 {
        '1'
    } else if d == 2 {
        '2'
    } else if d == 3 {
        '3'
    } else if d == 4 {
        '4'
    } else if d == 5 {
        '5'
    } else if d == 6 {
        '6'
    } else if d == 7 {
        '7'
    } else if d == 8 {
        '8'
    } else {
        '9'
    }
}

/// The decimal numeral of `n`, without leading zeros.
pub open spec fn decimal(n: nat) -> Seq<char>
    decreases n,
{
    if n < 10 {
        seq![digit_char(n as int)]
    } else {
        decimal(n / 10).push(digit_char((n % 10) as int))
    }
}

/// The file name of the artifact of the cycle with identifier `unique`.
pub open spec fn artifact_name_of(unique: nat) -> Seq<char> {
    "background-"@ + decimal(unique) + ".png"@
}

/// `name` inside the directory `dir`: a separator is put between them unless
/// `dir` is empty or already ends with one.
pub open spec fn joined(dir: Seq<char>, name: Seq<char>) -> Seq<char> {
    if dir.len() == 0 {
        name
    } else if dir.last() == '/' {
        dir + name
    } else {
        dir + "/"@ + name
    }
}

/// The names of the regular files among `entries`, in order: what a purge removes.
pub open spec fn stale(entries: Seq<DirEntry>) -> Seq<Seq<char>>
    decreases entries.len(),
{
    if entries.len() == 0 {
        Seq::empty()
    } else if entries.last().is_file {
        stale(entries.drop_last()).push(entries.last().name@)
    } else {
        stale(entries.drop_last())
    }
}

/// The entries that a purge leaves behind: those that are no regular files.
pub open spec fn kept(entries: Seq<DirEntry>) -> Seq<DirEntry>
    decreases entries.len(),
{
    if entries.len() == 0 {
        Seq::empty()
    } else if entries.last().is_file {
        kept(entries.drop_last())
    } else {
        kept(entries.drop_last()).push(entries.last())
    }
}

/// The one-character text of the decimal digit `d`.
fn digit_text(d: u64) -> (t: &'static str)
    requires
        d < 10,
    ensures
        t@ == seq![digit_char(d as int)],
{
    proof {
        reveal_strlit("0");
        reveal_strlit("1");
        reveal_strlit("2");
        reveal_strlit("3");
        reveal_strlit("4");
        reveal_strlit("5");
        reveal_strlit("6");
        reveal_strlit("7");
        reveal_strlit("8");
        reveal_strlit("9");
    }
    let t = if d == 0 {
        "0"
    } else if d == 1 {
        "1"
    } else if d == 2 {
        "2"
    } else if d == 3 {
        "3"
    } else if d == 4 {
        "4"
    } else if d == 5 {
        "5"
    } else if d == 6 {
        "6"
    } else if d == 7 {
        "7"
    } else if d == 8 {
        "8"
    } else {
        "9"
    };
    assert(t@ =~= seq![digit_char(d as int)]);
    t
}

/// Appends the decimal numeral of `n` to `text`.
fn push_decimal(text: &mut String, n: u64)
    ensures
        final(text)@ == old(text)@ + decimal(n as nat),
    decreases n,
{
    if n >= 10 {
        push_decimal(text, n / 10);
    }
    text.append(digit_text(n % 10));
    assert(final(text)@ =~= old(text)@ + decimal(n as nat));
}

/// The file name of the artifact of the cycle with identifier `unique`:
/// `background-`, the identifier in decimal, `.png`.
pub fn artifact_name(unique: u64) -> (name: String)
    ensures
        name@ == artifact_name_of(unique as nat),
{
    let mut name = String::from_str("background-");
    push_decimal(&mut name, unique);
    name.append(".png");
    name
}

/// The path of the artifact of the cycle with identifier `unique` in the
/// output directory `dir`.
pub fn artifact_path(dir: &str, unique: u64) -> (path: String)
    ensures
        path@ == joined(dir@, artifact_name_of(unique as nat)),
{
    let name = artifact_name(unique);
    let len = dir.unicode_len();
    if len == 0 {
        return name;
    }
    let mut path = String::from_str(dir);
    if dir.get_char(len - 1) != '/' {
        path.append("/");
    }
    path.append(name.as_str());
    path
}

/// The names of the files to remove before a new artifact is written: every
/// regular file of the output directory, in the order of the listing.
pub fn purge(entries: &Vec<DirEntry>) -> (removed: Vec<String>)
    ensures
        removed@.map_values(|s: String| s@) == stale(entries@),
{
    let mut removed: Vec<String> = Vec::new();
    let mut i: usize = 0;
    while i < entries.len()
        invariant
            i <= entries@.len(),
            removed@.map_values(|s: String| s@) == stale(entries@.take(i as int)),
        decreases entries@.len() - i,
    {
        let ghost before = removed@.map_values(|s: String| s@);
        assert(entries@.take(i + 1).drop_last() =~= entries@.take(i as int));
        if entries[i].is_file {
            removed.push(entries[i].name.clone());
            assert(removed@.map_values(|s: String| s@) =~= before.push(entries@[i as int].name@));
        }
        i += 1;
    }
    assert(entries@.take(i as int) =~= entries@);
    removed
}

/// Different digits are written with different characters.
proof fn lemma_digit_char_unique(a: int, b: int)
    requires
        0 <= a < 10,
        0 <= b < 10,
        digit_char(a) == digit_char(b),
    ensures
        a == b,
{
}

/// A numeral has at least one digit, and two from ten on.
proof fn lemma_decimal_len(n: nat)
    ensures
        decimal(n).len() >= 1,
        n >= 10 ==> decimal(n).len() >= 2,
    decreases n,
{
    if n >= 10 {
        lemma_decimal_len(n / 10);
    }
}

/// What is put behind one and the same text can be read off again.
proof fn lemma_same_prefix(prefix: Seq<char>, a: Seq<char>, b: Seq<char>)
    requires
        prefix + a == prefix + b,
    ensures
        a == b,
{
    assert((prefix + a).len() == prefix.len() + a.len());
    assert((prefix + b).len() == prefix.len() + b.len());
    assert forall|i: int| 0 <= i < a.len() implies a[i] == b[i] by {
        assert((prefix + a)[prefix.len() + i] == a[i]);
        assert((prefix + b)[prefix.len() + i] == b[i]);
    }
    assert(a =~= b);
}

/// What is put before one and the same text can be read off again.
proof fn lemma_same_suffix(a: Seq<char>, b: Seq<char>, suffix: Seq<char>)
    requires
        a + suffix == b + suffix,
    ensures
        a == b,
{
    assert((a + suffix).len() == a.len() + suffix.len());
    assert((b + suffix).len() == b.len() + suffix.len());
    assert forall|i: int| 0 <= i < a.len() implies a[i] == b[i] by {
        assert((a + suffix)[i] == a[i]);
        assert((b + suffix)[i] == b[i]);
    }
    assert(a =~= b);
}

/// Two numbers with the same decimal numeral are the same number.
pub proof fn lemma_decimal_unique(a: nat, b: nat)
    requires
        decimal(a) == decimal(b),
    ensures
        a == b,
    decreases a,
{
    lemma_decimal_len(a);
    lemma_decimal_len(b);
    if a < 10 && b < 10 {
        assert(decimal(a)[0] == digit_char(a as int));
        assert(decimal(b)[0] == digit_char(b as int));
        lemma_digit_char_unique(a as int, b as int);
    } else if a >= 10 && b >= 10 {
        let front_a = decimal(a / 10);
        let front_b = decimal(b / 10);
        assert(decimal(a).last() == digit_char((a % 10) as int));
        assert(decimal(b).last() == digit_char((b % 10) as int));
        assert(decimal(a).drop_last() =~= front_a);
        assert(decimal(b).drop_last() =~= front_b);
        lemma_decimal_unique(a / 10, b / 10);
        lemma_digit_char_unique((a % 10) as int, (b % 10) as int);
    }
}

/// Cycles with different identifiers get artifacts with different names,
/// and so with different paths in one directory.
pub proof fn lemma_artifact_names_differ(dir: Seq<char>, a: nat, b: nat)
    requires
        a != b,
    ensures
        artifact_name_of(a) != artifact_name_of(b),
        joined(dir, artifact_name_of(a)) != joined(dir, artifact_name_of(b)),
{
    let name_a = artifact_name_of(a);
    let name_b = artifact_name_of(b);
    if name_a == name_b {
        lemma_same_suffix("background-"@ + decimal(a), "background-"@ + decimal(b), ".png"@);
        lemma_same_prefix("background-"@, decimal(a), decimal(b));
        lemma_decimal_unique(a, b);
    }
    if joined(dir, name_a) == joined(dir, name_b) {
        if dir.len() == 0 {
        } else if dir.last() == '/' {
            lemma_same_prefix(dir, name_a, name_b);
        } else {
            lemma_same_prefix(dir + "/"@, name_a, name_b);
        }
    }
}

/// A purge leaves no regular file behind, so a second purge removes nothing.
pub proof fn lemma_purge_idempotent(entries: Seq<DirEntry>)
    ensures
        stale(kept(entries)).len() == 0,
        kept(kept(entries)) == kept(entries),
    decreases entries.len(),
{
    if entries.len() > 0 {
        lemma_purge_idempotent(entries.drop_last());
        if !entries.last().is_file {
            let rest = kept(entries.drop_last());
            assert(rest.push(entries.last()).drop_last() =~= rest);
        }
    }
}

/// After a purge and the writing of one artifact, the directory holds exactly
/// one regular file: that artifact.
pub proof fn lemma_single_artifact(entries: Seq<DirEntry>, artifact: DirEntry)
    requires
        artifact.is_file,
    ensures
        stale(kept(entries).push(artifact)) == seq![artifact.name@],
{
    lemma_purge_idempotent(entries);
    let rest = kept(entries);
    assert(rest.push(artifact).drop_last() =~= rest);
    assert(stale(rest) =~= Seq::<Seq<char>>::empty());
    assert(stale(rest.push(artifact)) =~= seq![artifact.name@]);
}

} // verus!
