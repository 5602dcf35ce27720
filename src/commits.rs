use vstd::prelude::*;

verus! {

/// The position of the first `|` in `s` at or after `from`.
pub open spec fn next_bar(s: Seq<char>, from: int) -> Option<int>
    decreases s.len() - from,
{
    if from >= s.len() || from < 0 {
        None
    } else if s[from] == '|' {
        Some(from)
    } else {
        next_bar(s, from + 1)
    }
}

/// A log line `sha|author|date|message` cut at its first three `|`; the
/// message keeps any further `|`. `None` where there are fewer than three.
pub open spec fn commit_fields(s: Seq<char>) -> Option<
    (Seq<char>, Seq<char>, Seq<char>, Seq<char>),
> {
    match next_bar(s, 0) {
        None => None,
        Some(a) => match next_bar(s, a + 1) {
            None => None,
            Some(b) => match next_bar(s, b + 1) {
                None => None,
                Some(c) => Some(
                    (
                        s.subrange(0, a),
                        s.subrange(a + 1, b),
                        s.subrange(b + 1, c),
                        s.subrange(c + 1, s.len() as int),
                    ),
                ),
            },
        },
    }
}

pub struct Commit {
    pub message: String,
    pub author: String,
    pub date: String,
}

pub struct CommitInfo {
    pub sha: String,
    pub commit: Commit,
}

fn find_bar(s: &str, len: usize, from: usize) -> (r: Option<usize>)
    requires
        len == s@.len(),
        from <= len,
    ensures
        match r {
            Some(i) => next_bar(s@, from as int) == Some(i as int) && from <= i < len,
            None => next_bar(s@, from as int) is None,
        },
{
    let mut i: usize = from;
    while i < len
        invariant
            from <= i <= len,
            len == s@.len(),
            next_bar(s@, from as int) == next_bar(s@, i as int),
        decreases len - i,
    {
        if s.get_char(i) == '|' {
            return Some(i);
        }
        i = i + 1;
    }
    None
}

/// Reads one line of `git log --pretty=format:%H|%an|%ad|%s`.
pub fn parse_commit_line(line: &str) -> (r: Option<CommitInfo>)
    ensures
        r is None <==> commit_fields(line@) is None,
        r matches Some(c) ==> commit_fields(line@) == Some(
            (c.sha@, c.commit.author@, c.commit.date@, c.commit.message@),
        ),
{
    let len = line.unicode_len();
    let a = match find_bar(line, len, 0) {
        Some(a) => a,
        None => return None,
    };
    let b = match find_bar(line, len, a + 1) {
        Some(b) => b,
        None => return None,
    };
    let c = match find_bar(line, len, b + 1) {
        Some(c) => c,
        None => return None,
    };
    let sha = line.substring_char(0, a).to_owned();
    let author = line.substring_char(a + 1, b).to_owned();
    let date = line.substring_char(b + 1, c).to_owned();
    let message = line.substring_char(c + 1, len).to_owned();
    Some(CommitInfo { sha, commit: Commit { message, author, date } })
}

} // verus!
