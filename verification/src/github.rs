use vstd::prelude::*;
use vstd::string::StrSliceExecFns;
use vstd::string::StringExecFns;

use crate::strings::clone_tokens;
use crate::strings::join_with;
use crate::strings::joined_with;

verus! {

/// A bookmark name pattern as the user typed it: the raw text, shown back in
/// messages, and whether it selects by exact name rather than by a wildcard
/// or similar pattern kind. Which bookmarks a non-exact pattern matches is the
/// embedding application's affair; this engine only reads the two fields.
#[derive(Debug)]
pub struct BookmarkPattern {
    pub raw: String,
    pub exact: bool,
}

/// Mathematical image of a `BookmarkPattern`.
pub ghost struct BookmarkPatternView {
    pub raw: Seq<char>,
    pub exact: bool,
}

impl View for BookmarkPattern {
    type V = BookmarkPatternView;

    open spec fn view(&self) -> BookmarkPatternView {
        BookmarkPatternView { raw: self.raw@, exact: self.exact }
    }
}

impl DeepView for BookmarkPattern {
    type V = BookmarkPatternView;

    open spec fn deep_view(&self) -> BookmarkPatternView {
        self@
    }
}

impl Clone for BookmarkPattern {
    fn clone(&self) -> (r: Self)
        ensures
            r == *self,
    {
        BookmarkPattern { raw: self.raw.clone(), exact: self.exact }
    }
}

/// One remote-tracked bookmark as the repository view shows it: its name,
/// whether a local target is present, and whether the remote reference is
/// tracked.
#[derive(Debug)]
pub struct BookmarkEntry {
    pub name: String,
    pub local_present: bool,
    pub remote_tracking: bool,
}

/// Mathematical image of a `BookmarkEntry`.
pub ghost struct BookmarkEntryView {
    pub name: Seq<char>,
    pub local_present: bool,
    pub remote_tracking: bool,
}

impl View for BookmarkEntry {
    type V = BookmarkEntryView;

    open spec fn view(&self) -> BookmarkEntryView {
        BookmarkEntryView {
            name: self.name@,
            local_present: self.local_present,
            remote_tracking: self.remote_tracking,
        }
    }
}

impl DeepView for BookmarkEntry {
    type V = BookmarkEntryView;

    open spec fn deep_view(&self) -> BookmarkEntryView {
        self@
    }
}

impl Clone for BookmarkEntry {
    fn clone(&self) -> (r: Self)
        ensures
            r == *self,
    {
        BookmarkEntry {
            name: self.name.clone(),
            local_present: self.local_present,
            remote_tracking: self.remote_tracking,
        }
    }
}

/// Arguments of the link command: revisions to link to, or bookmark patterns
/// whose bookmarks must exist in the remote repository; the caller rejects
/// giving both at once.
pub struct GithubLinkArgs {
    /// Revisions to generate links to.
    pub revision: Vec<String>,
    /// Bookmark patterns to generate links to.
    pub bookmark: Option<Vec<BookmarkPattern>>,
}

/// The repository-hosting subcommands.
pub enum GithubCommand {
    Link(GithubLinkArgs),
}

/// What the embedding application must resolve against the repository before
/// link invocations can be generated.
pub enum LinkTarget {
    /// Look the bookmarks matching these patterns up in the remote.
    Bookmarks(Vec<BookmarkPattern>),
    /// Resolve these revision arguments.
    Revisions(Vec<String>),
    /// Nothing was selected: default to the working-copy revision.
    DefaultRevision,
}

/// Decides what one repository-hosting request needs from the repository: the
/// bookmark patterns when bookmarks were requested; otherwise the revision
/// arguments, or the default revision when none were given.
pub fn cmd_github(subcommand: &GithubCommand) -> (r: LinkTarget)
    ensures
        match subcommand {
            GithubCommand::Link(args) => match args.bookmark {
                Some(pats) => r matches LinkTarget::Bookmarks(p) && p.deep_view()
                    == pats.deep_view(),
                None => if args.revision@.len() == 0 {
                    r is DefaultRevision
                } else {
                    r matches LinkTarget::Revisions(v) && v@ == args.revision@
                },
            },
        },
{
    match subcommand {
        GithubCommand::Link(args) => match &args.bookmark {
            Some(pats) => {
                let n = pats.len();
                let mut copy: Vec<BookmarkPattern> = Vec::new();
                let mut i: usize = 0;
                while i < n
                    invariant
                        i <= n,
                        n == pats@.len(),
                        copy.deep_view() =~= pats.deep_view().subrange(0, i as int),
                    decreases n - i,
                {
                    proof {
                        assert(copy.deep_view().len() == i as int);
                        assert(copy@.len() == i);
                    }
                    copy.push(pats[i].clone());
                    proof {
                        assert(copy@.len() == i + 1);
                        assert(copy@[i as int] == pats@[i as int]);
                        assert(copy.deep_view()[i as int] == pats.deep_view()[i as int]);
                        assert(copy.deep_view() =~= pats.deep_view().subrange(0, i as int + 1));
                    }
                    i += 1;
                }
                proof {
                    assert(copy.deep_view() =~= pats.deep_view());
                }
                LinkTarget::Bookmarks(copy)
            },
            None => {
                if args.revision.len() == 0 {
                    LinkTarget::DefaultRevision
                } else {
                    LinkTarget::Revisions(clone_tokens(&args.revision))
                }
            },
        },
    }
}

/// The argument vector of the external-tool invocation that prints the web
/// link of one commit.
pub open spec fn link_args_for_commit(id: Seq<char>) -> Seq<Seq<char>> {
    seq!["browse"@, "--no-browser"@, id]
}

/// The argument vector of the external-tool invocation that prints the web
/// link of one bookmark's remote branch.
pub open spec fn link_args_for_bookmark(name: Seq<char>) -> Seq<Seq<char>> {
    seq!["browse"@, "--no-browser"@, "--branch"@, name]
}

fn commit_invocation(id: &String) -> (r: Vec<String>)
    ensures
        r.deep_view() == link_args_for_commit(id@),
{
    let mut args: Vec<String> = Vec::new();
    args.push("browse".to_owned());
    args.push("--no-browser".to_owned());
    args.push(id.clone());
    proof {
        assert(args.deep_view() =~= link_args_for_commit(id@));
    }
    args
}

fn bookmark_invocation(name: &String) -> (r: Vec<String>)
    ensures
        r.deep_view() == link_args_for_bookmark(name@),
{
    let mut args: Vec<String> = Vec::new();
    args.push("browse".to_owned());
    args.push("--no-browser".to_owned());
    args.push("--branch".to_owned());
    args.push(name.clone());
    proof {
        assert(args.deep_view() =~= link_args_for_bookmark(name@));
    }
    args
}

/// The external-tool invocations that print the links of the given commits,
/// one argument vector per commit, in order.
pub fn links_for_commits(commit_ids: &Vec<String>) -> (r: Vec<Vec<String>>)
    ensures
        r.deep_view().len() == commit_ids@.len(),
        forall|i: int|
            0 <= i < commit_ids@.len() ==> r.deep_view()[i] == link_args_for_commit(
                commit_ids.deep_view()[i],
            ),
{
    let n = commit_ids.len();
    let mut r: Vec<Vec<String>> = Vec::new();
    let mut i: usize = 0;
    while i < n
        invariant
            i <= n,
            n == commit_ids@.len(),
            r.deep_view().len() == i,
            forall|j: int|
                0 <= j < i ==> r.deep_view()[j] == link_args_for_commit(
                    commit_ids.deep_view()[j],
                ),
        decreases n - i,
    {
        let ghost prior = r.deep_view();
        let inv = commit_invocation(&commit_ids[i]);
        r.push(inv);
        proof {
            assert(r.deep_view() =~= prior.push(link_args_for_commit(commit_ids.deep_view()[i as int])));
        }
        i += 1;
    }
    r
}

/// The external-tool invocations that print the links of the given bookmarks,
/// one argument vector per bookmark, in order.
pub fn links_for_bookmarks(bookmarks: &Vec<String>) -> (r: Vec<Vec<String>>)
    ensures
        r.deep_view().len() == bookmarks@.len(),
        forall|i: int|
            0 <= i < bookmarks@.len() ==> r.deep_view()[i] == link_args_for_bookmark(
                bookmarks.deep_view()[i],
            ),
{
    let n = bookmarks.len();
    let mut r: Vec<Vec<String>> = Vec::new();
    let mut i: usize = 0;
    while i < n
        invariant
            i <= n,
            n == bookmarks@.len(),
            r.deep_view().len() == i,
            forall|j: int|
                0 <= j < i ==> r.deep_view()[j] == link_args_for_bookmark(
                    bookmarks.deep_view()[j],
                ),
        decreases n - i,
    {
        let ghost prior = r.deep_view();
        let inv = bookmark_invocation(&bookmarks[i]);
        r.push(inv);
        proof {
            assert(r.deep_view() =~= prior.push(link_args_for_bookmark(bookmarks.deep_view()[i as int])));
        }
        i += 1;
    }
    r
}

/// The external tool failing or answering unusably.
#[derive(Debug)]
pub enum GhError {
    /// The tool exited unsuccessfully: its exit status as shown to the user,
    /// and what it wrote to standard error.
    Command { exit_status: String, stderr: String },
    /// The tool's output was not valid text.
    BadResult,
    /// The tool could not be run at all.
    Io { message: String },
}

/// Mathematical image of a `GhError`.
pub ghost enum GhErrorView {
    Command { exit_status: Seq<char>, stderr: Seq<char> },
    BadResult,
    Io { message: Seq<char> },
}

impl View for GhError {
    type V = GhErrorView;

    open spec fn view(&self) -> GhErrorView {
        match self {
            GhError::Command { exit_status, stderr } => GhErrorView::Command {
                exit_status: exit_status@,
                stderr: stderr@,
            },
            GhError::BadResult => GhErrorView::BadResult,
            GhError::Io { message } => GhErrorView::Io { message: message@ },
        }
    }
}

/// A user-facing failure of the link command: the message shown, and an
/// optional hint on how to proceed.
#[derive(Debug)]
pub struct UserError {
    pub message: String,
    pub hint: Option<String>,
}

/// Mathematical image of a `UserError`.
pub ghost struct UserErrorView {
    pub message: Seq<char>,
    pub hint: Option<Seq<char>>,
}

impl View for UserError {
    type V = UserErrorView;

    open spec fn view(&self) -> UserErrorView {
        UserErrorView {
            message: self.message@,
            hint: match self.hint {
                Some(h) => Some(h@),
                None => None,
            },
        }
    }
}

/// The user-facing error that each tool failure is reported as.
pub open spec fn spec_user_error_of(e: GhErrorView) -> UserErrorView {
    match e {
        GhErrorView::Command { exit_status, stderr } => UserErrorView {
            message: "gh command failed with "@ + exit_status + ": "@ + stderr,
            hint: None,
        },
        GhErrorView::BadResult => UserErrorView {
            message: "Failed to parse response from gh"@,
            hint: None,
        },
        GhErrorView::Io { message } => UserErrorView {
            message: "gh failed with error: "@ + message,
            hint: Some(
                "Check the gh CLI is installed and `gh auth status` shows that you are logged in"@,
            ),
        },
    }
}

impl UserError {
    /// Turns a tool failure into the error reported to the user.
    pub fn from_gh(error: GhError) -> (r: UserError)
        ensures
            r@ == spec_user_error_of(error@),
    {
        match error {
            GhError::Command { exit_status, stderr } => {
                let mut m = "gh command failed with ".to_owned();
                m.append(exit_status.as_str());
                m.append(": ");
                m.append(stderr.as_str());
                UserError { message: m, hint: None }
            },
            GhError::BadResult => UserError {
                message: "Failed to parse response from gh".to_owned(),
                hint: None,
            },
            GhError::Io { message } => {
                let mut m = "gh failed with error: ".to_owned();
                m.append(message.as_str());
                UserError {
                    message: m,
                    hint: Some(
                        "Check the gh CLI is installed and `gh auth status` shows that you are logged in".to_owned(),
                    ),
                }
            },
        }
    }
}

/// Whether a character has the Unicode white-space property; what
/// `char::is_whitespace` answers, a fixed table.
pub uninterp spec fn unicode_whitespace(c: char) -> bool;

/// Relies on `char::is_whitespace`: whether `c` has the Unicode White_Space
/// property.
#[verifier::external_body]
fn is_whitespace_char(c: char) -> (r: bool)
    ensures
        r == unicode_whitespace(c),
{
    c.is_whitespace()
}

/// The length of `s` without its trailing white-space characters.
pub open spec fn trimmed_end_len(s: Seq<char>) -> int
    decreases s.len(),
{
    if s.len() == 0 {
        0
    } else if unicode_whitespace(s.last()) {
        trimmed_end_len(s.drop_last())
    } else {
        s.len() as int
    }
}

/// The length that stripping trailing white space off `s` leaves.
fn trimmed_len_of(s: &str) -> (k: usize)
    ensures
        k == trimmed_end_len(s@),
        k <= s@.len(),
{
    let mut k = s.unicode_len();
    proof {
        assert(s@.subrange(0, k as int) =~= s@);
    }
    while k > 0
        invariant
            k <= s@.len(),
            trimmed_end_len(s@) == trimmed_end_len(s@.subrange(0, k as int)),
        decreases k,
    {
        let c = s.get_char(k - 1);
        proof {
            let cut = s@.subrange(0, k as int);
            assert(cut.last() == s@[k - 1]);
            assert(cut.drop_last() =~= s@.subrange(0, k as int - 1));
        }
        if !is_whitespace_char(c) {
            return k;
        }
        k = k - 1;
    }
    proof {
        assert(s@.subrange(0, 0) =~= Seq::<char>::empty());
    }
    k
}

/// Strips trailing white space off `s`.
pub fn trim_end_whitespace(s: &str) -> (r: String)
    ensures
        r@ == s@.subrange(0, trimmed_end_len(s@)),
{
    let k = trimmed_len_of(s);
    let out = s.substring_char(0, k);
    out.to_owned()
}

/// The characters that `bytes` encodes, when it is valid text; what
/// `String::from_utf8` decodes, a function of the bytes alone.
pub uninterp spec fn utf8_decoded(bytes: Seq<u8>) -> Option<Seq<char>>;

/// Relies on `String::from_utf8`: succeeds exactly on valid encoded text and
/// yields the characters the bytes encode.
#[verifier::external_body]
fn bytes_to_string(data: Vec<u8>) -> (r: Option<String>)
    ensures
        match r {
            Some(s) => utf8_decoded(data@) == Some(s@),
            None => utf8_decoded(data@) is None,
        },
{
    String::from_utf8(data).ok()
}

/// The characters that lossy decoding renders `bytes` as, invalid sequences
/// replaced; what `String::from_utf8_lossy` yields, a function of the bytes
/// alone.
pub uninterp spec fn lossy_decoded(bytes: Seq<u8>) -> Seq<char>;

/// Relies on `String::from_utf8_lossy`: decodes, replacing invalid sequences
/// with the replacement character.
#[verifier::external_body]
fn bytes_to_string_lossy(data: &Vec<u8>) -> (r: String)
    ensures
        r@ == lossy_decoded(data@),
{
    String::from_utf8_lossy(data).into_owned()
}

/// Decodes the tool's raw output, or reports it unusable.
pub fn parse_utf8_string(data: Vec<u8>) -> (r: Result<String, GhError>)
    ensures
        match r {
            Ok(s) => utf8_decoded(data@) == Some(s@),
            Err(e) => utf8_decoded(data@) is None && e@ == GhErrorView::BadResult,
        },
{
    match bytes_to_string(data) {
        Some(s) => Ok(s),
        None => Err(GhError::BadResult),
    }
}

/// The link text that one successful invocation printed: its raw output
/// decoded and stripped of trailing white space (the closing line break).
pub fn run_command_with_output(output: Vec<u8>) -> (r: Result<String, GhError>)
    ensures
        match r {
            Ok(s) => utf8_decoded(output@) matches Some(t) && s@ == t.subrange(
                0,
                trimmed_end_len(t),
            ),
            Err(e) => utf8_decoded(output@) is None && e@ == GhErrorView::BadResult,
        },
{
    match parse_utf8_string(output) {
        Ok(s) => Ok(trim_end_whitespace(s.as_str())),
        Err(e) => Err(e),
    }
}

/// Decides what one run of the external tool produced: the raw standard
/// output of a successful exit, or the command-failed error carrying the
/// exit status as shown to the user and the trimmed standard error.
pub fn run_command(success: bool, exit_status: String, stdout: Vec<u8>, stderr: &Vec<u8>) -> (r:
    Result<Vec<u8>, GhError>)
    ensures
        success ==> (r matches Ok(o) && o@ == stdout@),
        !success ==> (r matches Err(e) && e@ == (GhErrorView::Command {
            exit_status: exit_status@,
            stderr: lossy_decoded(stderr@).subrange(
                0,
                trimmed_end_len(lossy_decoded(stderr@)),
            ),
        })),
{
    if success {
        Ok(stdout)
    } else {
        let text = bytes_to_string_lossy(stderr);
        let trimmed = trim_end_whitespace(text.as_str());
        Err(GhError::Command { exit_status, stderr: trimmed })
    }
}

/// Whether a found bookmark counts: a remote that exists but is not tracked,
/// with no local target, is not considered.
pub open spec fn retained(e: BookmarkEntryView) -> bool {
    e.local_present || e.remote_tracking
}

/// The entries of `s` that count, in order.
pub open spec fn kept(s: Seq<BookmarkEntryView>) -> Seq<BookmarkEntryView>
    decreases s.len(),
{
    if s.len() == 0 {
        Seq::empty()
    } else if retained(s.last()) {
        kept(s.drop_last()).push(s.last())
    } else {
        kept(s.drop_last())
    }
}

/// The counting entries of all candidate rows, in pattern order.
pub open spec fn all_kept(rows: Seq<Seq<BookmarkEntryView>>) -> Seq<BookmarkEntryView>
    decreases rows.len(),
{
    if rows.len() == 0 {
        Seq::empty()
    } else {
        all_kept(rows.drop_last()) + kept(rows.last())
    }
}

/// The patterns whose candidate row keeps no entry, in order; `rows` runs in
/// parallel with `pats`.
pub open spec fn unmatched(
    pats: Seq<BookmarkPatternView>,
    rows: Seq<Seq<BookmarkEntryView>>,
) -> Seq<BookmarkPatternView>
    decreases pats.len(),
{
    if pats.len() == 0 {
        Seq::empty()
    } else if kept(rows[pats.len() - 1]).len() == 0 {
        unmatched(pats.drop_last(), rows.drop_last()).push(pats.last())
    } else {
        unmatched(pats.drop_last(), rows.drop_last())
    }
}

/// The raw texts of the patterns, in order.
pub open spec fn pattern_raws(pats: Seq<BookmarkPatternView>) -> Seq<Seq<char>> {
    pats.map_values(|p: BookmarkPatternView| p.raw)
}

/// What selecting bookmarks yields: every counting entry when each pattern
/// kept at least one, else the error naming the unmatched pattern or
/// patterns.
pub open spec fn find_bookmarks_response(
    pats: Seq<BookmarkPatternView>,
    rows: Seq<Seq<BookmarkEntryView>>,
) -> Result<Seq<BookmarkEntryView>, UserErrorView> {
    let un = unmatched(pats, rows);
    if un.len() == 0 {
        Ok(all_kept(rows))
    } else if un.len() == 1 && un[0].exact {
        Err(UserErrorView { message: "No such bookmark: "@ + un[0].raw, hint: None })
    } else {
        Err(
            UserErrorView {
                message: "No matching bookmarks for patterns: "@ + joined_with(
                    pattern_raws(un),
                    ", "@,
                ),
                hint: None,
            },
        )
    }
}

/// Selects the bookmarks that the patterns matched in the repository view.
/// `candidates` holds, for each pattern in order, the entries that the
/// embedding application's matcher found for it; entries with neither a local
/// target nor a tracked remote are dropped. Each pattern must keep at least
/// one entry, else the request fails naming the unmatched patterns.
pub fn find_bookmarks(
    bookmark_patterns: &Vec<BookmarkPattern>,
    candidates: &Vec<Vec<BookmarkEntry>>,
) -> (r: Result<Vec<BookmarkEntry>, UserError>)
    requires
        candidates@.len() == bookmark_patterns@.len(),
    ensures
        match r {
            Ok(found) => find_bookmarks_response(
                bookmark_patterns.deep_view(),
                candidates.deep_view(),
            ) matches Ok(f) && found.deep_view() == f,
            Err(e) => find_bookmarks_response(
                bookmark_patterns.deep_view(),
                candidates.deep_view(),
            ) matches Err(v) && e@ == v,
        },
{
    let ghost pats_dv = bookmark_patterns.deep_view();
    let ghost rows_dv = candidates.deep_view();
    let n = bookmark_patterns.len();
    let mut matching: Vec<BookmarkEntry> = Vec::new();
    let mut unmatched_patterns: Vec<BookmarkPattern> = Vec::new();
    proof {
        assert(matching.deep_view() =~= all_kept(rows_dv.subrange(0, 0)));
        assert(unmatched_patterns.deep_view() =~= unmatched(
            pats_dv.subrange(0, 0),
            rows_dv.subrange(0, 0),
        ));
    }
    let mut i: usize = 0;
    while i < n
        invariant
            i <= n,
            n == pats_dv.len(),
            n == rows_dv.len(),
            pats_dv == bookmark_patterns.deep_view(),
            rows_dv == candidates.deep_view(),
            n == candidates@.len(),
            n == bookmark_patterns@.len(),
            matching.deep_view() == all_kept(rows_dv.subrange(0, i as int)),
            unmatched_patterns.deep_view() == unmatched(
                pats_dv.subrange(0, i as int),
                rows_dv.subrange(0, i as int),
            ),
        decreases n - i,
    {
        let row = &candidates[i];
        let ghost row_dv = row.deep_view();
        let m = row.len();
        let ghost matching0 = matching.deep_view();
        let mut found = false;
        proof {
            assert(kept(row_dv.subrange(0, 0)) =~= Seq::<BookmarkEntryView>::empty());
            assert(matching.deep_view() =~= matching0 + kept(row_dv.subrange(0, 0)));
        }
        let mut j: usize = 0;
        while j < m
            invariant
                j <= m,
                m == row_dv.len(),
                row_dv == row.deep_view(),
                matching.deep_view() == matching0 + kept(row_dv.subrange(0, j as int)),
                found == (kept(row_dv.subrange(0, j as int)).len() > 0),
            decreases m - j,
        {
            let ghost cut = row_dv.subrange(0, j as int + 1);
            proof {
                assert(cut.drop_last() =~= row_dv.subrange(0, j as int));
                assert(cut.last() == row_dv[j as int]);
            }
            let e = &row[j];
            if e.local_present || e.remote_tracking {
                let ghost before = matching.deep_view();
                matching.push(e.clone());
                found = true;
                proof {
                    assert(matching.deep_view() =~= before.push(row_dv[j as int]));
                    assert(matching.deep_view() =~= matching0 + kept(cut));
                }
            }
            j += 1;
        }
        proof {
            assert(row_dv.subrange(0, m as int) =~= row_dv);
        }
        if !found {
            let ghost before = unmatched_patterns.deep_view();
            unmatched_patterns.push(bookmark_patterns[i].clone());
            proof {
                assert(unmatched_patterns.deep_view() =~= before.push(pats_dv[i as int]));
            }
        }
        proof {
            let pcut = pats_dv.subrange(0, i as int + 1);
            let rcut = rows_dv.subrange(0, i as int + 1);
            assert(pcut.drop_last() =~= pats_dv.subrange(0, i as int));
            assert(rcut.drop_last() =~= rows_dv.subrange(0, i as int));
            assert(pcut.last() == pats_dv[i as int]);
            assert(rcut.last() == rows_dv[i as int]);
            assert(rcut[pcut.len() - 1] == rows_dv[i as int]);
            assert(rows_dv[i as int] == row_dv);
        }
        i += 1;
    }
    proof {
        assert(pats_dv.subrange(0, n as int) =~= pats_dv);
        assert(rows_dv.subrange(0, n as int) =~= rows_dv);
    }
    if unmatched_patterns.len() == 0 {
        Ok(matching)
    } else if unmatched_patterns.len() == 1 && unmatched_patterns[0].exact {
        let mut m = "No such bookmark: ".to_owned();
        m.append(unmatched_patterns[0].raw.as_str());
        Err(UserError { message: m, hint: None })
    } else {
        let k = unmatched_patterns.len();
        let mut raws: Vec<String> = Vec::new();
        let mut i: usize = 0;
        while i < k
            invariant
                i <= k,
                k == unmatched_patterns@.len(),
                raws.deep_view() =~= pattern_raws(unmatched_patterns.deep_view()).subrange(
                    0,
                    i as int,
                ),
            decreases k - i,
        {
            proof {
                assert(raws.deep_view().len() == i as int);
            }
            raws.push(unmatched_patterns[i].raw.clone());
            proof {
                assert(raws.deep_view() =~= pattern_raws(
                    unmatched_patterns.deep_view(),
                ).subrange(0, i as int + 1));
            }
            i += 1;
        }
        proof {
            assert(pattern_raws(unmatched_patterns.deep_view()).subrange(0, k as int)
                =~= pattern_raws(unmatched_patterns.deep_view()));
        }
        let joined = join_with(&raws, ", ");
        let mut m = "No matching bookmarks for patterns: ".to_owned();
        m.append(joined.as_str());
        Err(UserError { message: m, hint: None })
    }
}

} // verus!
