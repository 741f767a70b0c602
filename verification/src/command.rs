//! Command execution results and the pure text helpers around remote
//! command output: shell quoting and virtual-path arithmetic.

use vstd::prelude::*;
use vstd::string::{StringExecFns, StrSliceExecFns};

verus! {

/// What a remote command returned. Named but not written out: the lossy
/// UTF-8 rendering of a byte sequence is a function of the bytes alone.
pub uninterp spec fn utf8_lossy_of(bytes: Seq<u8>) -> Seq<char>;

/// Relies on String::from_utf8_lossy: a rendering determined by the input
/// bytes alone, empty exactly when the input is.
#[verifier::external_body]
fn utf8_lossy(bytes: &[u8]) -> (r: String)
    ensures
        r@ == utf8_lossy_of(bytes@),
        bytes@.len() == 0 ==> r@.len() == 0,
{
    String::from_utf8_lossy(bytes).to_string()
}

/// The result of executing a remote command.
#[derive(Debug, Clone)]
pub struct CommandResult {
    /// Standard output of the command
    pub stdout: Vec<u8>,
    /// Standard error of the command
    pub stderr: Vec<u8>,
    /// Exit code (zero typically means success)
    pub exit_code: i32,
}

impl CommandResult {
    /// Whether the command succeeded (exit code zero).
    pub fn success(&self) -> (r: bool)
        ensures
            r == (self.exit_code == 0),
    {
        self.exit_code == 0
    }

    /// Standard output as text (lossy UTF-8).
    pub fn stdout_string(&self) -> (r: String)
        ensures
            r@ == utf8_lossy_of(self.stdout@),
    {
        utf8_lossy(self.stdout.as_slice())
    }

    /// Standard error as text (lossy UTF-8).
    pub fn stderr_string(&self) -> (r: String)
        ensures
            r@ == utf8_lossy_of(self.stderr@),
    {
        utf8_lossy(self.stderr.as_slice())
    }
}

/// A file entry as reported by a remote listing.
#[derive(Debug, Clone)]
pub struct RemoteFileEntry {
    /// The entry's name
    pub name: String,
    /// The entry's full path
    pub path: String,
    /// Whether the entry is a directory
    pub is_dir: bool,
    /// Size in bytes
    pub size: u64,
    /// The permissions text
    pub permissions: String,
    /// The modification time text
    pub modified: String,
    /// The owner text
    pub owner: String,
}

/// The single-quote character shell quoting escapes.
pub open spec fn quote_char() -> char {
    (0x27u8) as char
}

/// Shell quoting of one character: a quote becomes quote backslash quote
/// quote, anything else stands alone.
pub open spec fn escape_one(c: char) -> Seq<char> {
    if c == quote_char() {
        seq![quote_char(), (0x5Cu8) as char, quote_char(), quote_char()]
    } else {
        seq![c]
    }
}

/// Shell quoting of a character sequence, one character at a time.
pub open spec fn escape_chars(s: Seq<char>) -> Seq<char>
    decreases s.len(),
{
    if s.len() == 0 {
        Seq::empty()
    } else {
        escape_one(s[0]) + escape_chars(s.drop_first())
    }
}

/// The full shell quoting of a string: quoted, with inner quotes escaped.
pub open spec fn shell_escaped(s: Seq<char>) -> Seq<char> {
    seq![quote_char()] + escape_chars(s) + seq![quote_char()]
}

proof fn lemma_escape_chars_snoc(s: Seq<char>, c: char)
    ensures
        escape_chars(s.push(c)) == escape_chars(s) + escape_one(c),
    decreases s.len(),
{
    if s.len() == 0 {
        assert(s.push(c)[0] == c);
        assert(s.push(c).drop_first() =~= Seq::<char>::empty());
        assert(escape_chars(s.push(c)) =~= escape_one(c) + escape_chars(Seq::<char>::empty()));
        assert(escape_one(c) + escape_chars(Seq::<char>::empty()) =~= escape_one(c));
        assert(escape_chars(s) + escape_one(c) =~= escape_one(c));
    } else {
        assert(s.push(c)[0] == s[0]);
        assert(s.push(c).drop_first() =~= s.drop_first().push(c));
        lemma_escape_chars_snoc(s.drop_first(), c);
        assert(escape_one(s[0]) + (escape_chars(s.drop_first()) + escape_one(c))
            =~= (escape_one(s[0]) + escape_chars(s.drop_first())) + escape_one(c));
    }
}

/// Quote a string for the shell: wrapped in single quotes, with every
/// inner single quote turned into an escaped quote.
pub fn shell_escape(s: &str) -> (r: String)
    ensures
        r@ == shell_escaped(s@),
{
    let n = s.unicode_len();
    let mut out = "'".to_owned();
    let mut i: usize = 0;
    proof {
        reveal_strlit("'");
        assert(out@ =~= seq![quote_char()] + escape_chars(s@.subrange(0, 0)));
    }
    while i < n
        invariant
            n == s@.len(),
            i <= n,
            out@ == seq![quote_char()] + escape_chars(s@.subrange(0, i as int)),
        decreases n - i,
    {
        let c = s.get_char(i);
        let u = c as u32;
        let ghost prefix = s@.subrange(0, i as int);
        if u == 0x27 {
            out.append("'\\''");
            proof {
                reveal_strlit("'\\''");
                assert(("'\\''")@ =~= escape_one(c));
            }
        } else {
            let piece = s.substring_char(i, i + 1);
            out.append(piece);
            proof {
                assert(piece@ =~= seq![c]);
                assert(c != quote_char()) by {
                    assert(quote_char() as u32 == 0x27);
                }
                assert(piece@ =~= escape_one(c));
            }
        }
        proof {
            assert(s@.subrange(0, i + 1) =~= prefix.push(c));
            lemma_escape_chars_snoc(prefix, c);
            assert(out@ =~= seq![quote_char()] + escape_chars(s@.subrange(0, i + 1)));
        }
        i = i + 1;
    }
    out.append("'");
    proof {
        reveal_strlit("'");
        assert(s@.subrange(0, s@.len() as int) =~= s@);
        assert(out@ =~= shell_escaped(s@));
    }
    out
}

/// Whether a path, with any trailing slashes removed, is empty or the
/// root.
pub open spec fn trimmed(s: Seq<char>) -> Seq<char>
    decreases s.len(),
{
    if s.len() > 0 && s.last() == '/' {
        trimmed(s.drop_last())
    } else {
        s
    }
}

/// The parent of a virtual path: everything before the last slash of the
/// trimmed path, or the root when there is none (or nothing left).
pub open spec fn parent_of(s: Seq<char>) -> Seq<char> {
    let t = trimmed(s);
    if t.len() == 0 || !t.contains('/') {
        seq!['/']
    } else {
        let i = last_slash(t);
        if i == 0 {
            seq!['/']
        } else {
            t.subrange(0, i)
        }
    }
}

/// The index of the last slash in a sequence that contains one.
pub open spec fn last_slash(s: Seq<char>) -> int {
    choose|i: int| 0 <= i < s.len() && s[i] == '/' && (forall|j: int| i < j < s.len() ==> s[j] != '/')
}

/// The parent of a path string.
pub fn get_parent_path(path: &str) -> (r: String)
    ensures
        r@ == parent_of(path@),
{
    let n = path.unicode_len();
    // Trim trailing slashes.
    let mut end = n;
    let mut done = false;
    proof {
        assert(path@.subrange(0, n as int) =~= path@);
    }
    while end > 0 && !done
        invariant
            n == path@.len(),
            end <= n,
            trimmed(path@) == trimmed(path@.subrange(0, end as int)),
            done ==> end > 0 && trimmed(path@.subrange(0, end as int)) == path@.subrange(
                0,
                end as int,
            ),
        decreases end + (if done { 0int } else { 1int }),
    {
        let c = path.get_char(end - 1);
        if (c as u32) != 0x2F {
            proof {
                assert(path@.subrange(0, end as int).last() == c);
                assert(c != '/') by {
                    assert(('/') as u32 == 0x2F);
                }
                assert(trimmed(path@.subrange(0, end as int)) == path@.subrange(0, end as int));
            }
            done = true;
        } else {
            proof {
                assert(path@.subrange(0, end as int).last() == c);
                assert(c == '/') by {
                    assert(('/') as u32 == 0x2F);
                }
                assert(path@.subrange(0, end as int).drop_last() =~= path@.subrange(
                    0,
                    end - 1,
                ));
            }
            end = end - 1;
        }
    }
    let ghost t = trimmed(path@);
    proof {
        if end == 0 {
            assert(path@.subrange(0, 0) =~= Seq::<char>::empty());
            assert(trimmed(path@.subrange(0, 0)) =~= Seq::<char>::empty());
            assert(t.len() == 0);
        } else {
            assert(t == path@.subrange(0, end as int));
        }
    }

    if end == 0 {
        let r = "/".to_owned();
        proof {
            reveal_strlit("/");
            assert(r@ =~= seq!['/']);
        }
        return r;
    }

    // Find the last slash in the trimmed prefix.
    let mut i = end;
    while i > 0
        invariant
            n == path@.len(),
            0 < end <= n,
            i <= end,
            t == trimmed(path@),
            t == path@.subrange(0, end as int),
            forall|j: int| i <= j < end ==> t[j] != '/',
        decreases i,
    {
        let c = path.get_char(i - 1);
        if (c as u32) == 0x2F {
            proof {
                assert(t[i - 1] == c);
                assert(c == '/') by {
                    assert(('/') as u32 == 0x2F);
                }
                assert(last_slash(t) == i - 1) by {
                    assert(0 <= i - 1 < t.len() && t[i - 1] == '/' && (forall|j: int|
                        i - 1 < j < t.len() ==> t[j] != '/'));
                    let w = last_slash(t);
                    if w != i - 1 {
                        if w < i - 1 {
                            assert(t[i - 1] != '/');
                        } else {
                            assert(t[w] != '/');
                        }
                    }
                }
                assert(t.contains('/')) by {
                    assert(t[i - 1] == '/');
                }
            }
            if i - 1 == 0 {
                let r = "/".to_owned();
                proof {
                    reveal_strlit("/");
                    assert(r@ =~= seq!['/']);
                    assert(trimmed(path@).len() > 0);
                    assert(trimmed(path@).contains('/'));
                    assert(last_slash(trimmed(path@)) == 0);
                    assert(parent_of(path@) == seq!['/']);
                }
                return r;
            }
            let piece = path.substring_char(0, i - 1);
            let r = piece.to_owned();
            proof {
                assert(piece@ =~= t.subrange(0, i - 1));
                assert(trimmed(path@).len() > 0);
                assert(trimmed(path@).contains('/'));
                assert(last_slash(trimmed(path@)) == i - 1);
                assert(parent_of(path@) == t.subrange(0, i - 1));
                assert(r@ =~= parent_of(path@));
            }
            return r;
        }
        proof {
            assert(t[i - 1] == c);
            assert(c != '/') by {
                assert(('/') as u32 == 0x2F);
            }
        }
        i = i - 1;
    }
    proof {
        assert(forall|j: int| 0 <= j < t.len() ==> t[j] != '/');
        assert(!t.contains('/')) by {
            if t.contains('/') {
                let w = choose|w: int| 0 <= w < t.len() && t[w] == '/';
                assert(t[w] != '/');
            }
        }
    }
    let r = "/".to_owned();
    proof {
        reveal_strlit("/");
        assert(r@ =~= seq!['/']);
    }
    r
}

} // verus!
