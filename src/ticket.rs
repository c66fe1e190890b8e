use crate::errors::{CliError, PathProblem};
use crate::git::{create_branch, find_commit, find_local_branch, refname_to_id, set_head};
use crate::util::{normalise_str, normalised};
use crate::listing::{listed_paths, split_listing, string_views};
use crate::path::{
    chars_of, file_name_of, join, join_paths, lacks, find_last, last_index, lemma_last_index_is,
    lies_under, parent_of, relative_part, rest_start_exec, stem_of,
};
use vstd::prelude::*;
use vstd::string::StrSliceExecFns;
use vstd::string::StringExecFns;

verus! {

/// A ticket's identity: its name, its type and its location under the
/// tickets directory.
#[derive(Debug)]
pub struct Ticket {
    pub name: String,
    pub ttype: String,
    pub location: String,
}

impl View for Ticket {
    type V = (Seq<char>, Seq<char>, Seq<char>);

    open spec fn view(&self) -> (Seq<char>, Seq<char>, Seq<char>) {
        (self.name@, self.ttype@, self.location@)
    }
}

/// The ticket that `path` names, given the working directory and the
/// tickets directory.
pub open spec fn decode(workdir: Seq<char>, tickets_dir: Seq<char>, path: Seq<char>) -> Result<
    (Seq<char>, Seq<char>, Seq<char>),
    PathProblem,
> {
    if !lies_under(workdir, path) {
        Err(PathProblem::NotUnderWorkdir)
    } else if !lies_under(tickets_dir, path) {
        Err(PathProblem::NotUnderTicketsDir)
    } else {
        let rel = relative_part(tickets_dir, path);
        let f = file_name_of(rel);
        let stem = stem_of(f);
        let e = last_index(stem, '.');
        if f == seq!['.'] || f == seq!['.', '.'] {
            Err(PathProblem::NoFileName)
        } else if e < 0 {
            Err(PathProblem::MissingType)
        } else {
            Ok((stem.subrange(0, e), stem.subrange(e + 1, stem.len() as int), parent_of(rel)))
        }
    }
}

/// The file name of a ticket: `name.ttype.md`.
pub open spec fn ticket_file_name(name: Seq<char>, ttype: Seq<char>) -> Seq<char> {
    name + seq!['.'] + ttype + seq!['.', 'm', 'd']
}

/// Where a ticket's file lies under the tickets directory:
/// `location/name.ttype.md`, or just the file name when the location is empty.
pub open spec fn encode(m: (Seq<char>, Seq<char>, Seq<char>)) -> Seq<char> {
    if m.2.len() == 0 {
        ticket_file_name(m.0, m.1)
    } else {
        m.2 + seq!['/'] + ticket_file_name(m.0, m.1)
    }
}

/// Decoding the path that encoding gives back the same ticket, when neither
/// name nor type holds a `.` or a `/`, wherever the tickets directory sits
/// under the working directory.
pub proof fn lemma_round_trip(
    workdir: Seq<char>,
    root: Seq<char>,
    m: (Seq<char>, Seq<char>, Seq<char>),
)
    requires
        root.len() > 0,
        lacks(m.0, '.'),
        lacks(m.0, '/'),
        lacks(m.1, '.'),
        lacks(m.1, '/'),
    ensures
        decode(workdir, join(workdir, root), join(join(workdir, root), encode(m))) == Ok::<
            (Seq<char>, Seq<char>, Seq<char>),
            PathProblem,
        >(m),
{
    let t = join(workdir, root);
    let rel = encode(m);
    let p = join(t, rel);
    let f = ticket_file_name(m.0, m.1);
    assert(p.subrange(0, t.len() as int) =~= t);
    assert(t.subrange(0, workdir.len() as int) =~= workdir);
    assert(p.subrange(0, workdir.len() as int) =~= workdir);
    assert(lies_under(workdir, p));
    assert(relative_part(t, p) =~= rel);
    let ghost ls: int = if m.2.len() == 0 { -1 } else { m.2.len() as int };
    lemma_last_index_is(rel, '/', ls);
    assert(file_name_of(rel) =~= f);
    assert(parent_of(rel) =~= m.2);
    let stem = m.0 + seq!['.'] + m.1;
    lemma_last_index_is(f, '.', stem.len() as int);
    assert(stem_of(f) =~= stem);
    lemma_last_index_is(stem, '.', m.0.len() as int);
    assert(stem.subrange(0, m.0.len() as int) =~= m.0);
    assert(stem.subrange(m.0.len() + 1int, stem.len() as int) =~= m.1);
}

/// A path whose file stem holds no `.` is refused for want of a type.
pub proof fn lemma_missing_type(workdir: Seq<char>, tickets_dir: Seq<char>, path: Seq<char>)
    requires
        lies_under(workdir, path),
        lies_under(tickets_dir, path),
        lacks(stem_of(file_name_of(relative_part(tickets_dir, path))), '.'),
    ensures
        decode(workdir, tickets_dir, path) == Err::<(Seq<char>, Seq<char>, Seq<char>), PathProblem>(
            PathProblem::MissingType,
        ),
{
    lemma_last_index_is(stem_of(file_name_of(relative_part(tickets_dir, path))), '.', -1);
}

/// A path outside the working directory or outside the tickets directory is
/// refused, for that reason, whatever the other directory is.
pub proof fn lemma_outside_refused(workdir: Seq<char>, tickets_dir: Seq<char>, path: Seq<char>)
    requires
        !lies_under(workdir, path) || !lies_under(tickets_dir, path),
    ensures
        decode(workdir, tickets_dir, path) == Err::<(Seq<char>, Seq<char>, Seq<char>), PathProblem>(
            PathProblem::NotUnderWorkdir,
        ) || decode(workdir, tickets_dir, path) == Err::<
            (Seq<char>, Seq<char>, Seq<char>),
            PathProblem,
        >(PathProblem::NotUnderTicketsDir),
{
}

/// The tickets that `paths` name, in order, or the first problem met.
pub open spec fn decode_all(workdir: Seq<char>, tickets_dir: Seq<char>, paths: Seq<Seq<char>>) -> Result<
    Seq<(Seq<char>, Seq<char>, Seq<char>)>,
    PathProblem,
>
    decreases paths.len(),
{
    if paths.len() == 0 {
        Ok(Seq::empty())
    } else {
        match decode_all(workdir, tickets_dir, paths.drop_last()) {
            Err(e) => Err(e),
            Ok(ms) => match decode(workdir, tickets_dir, paths.last()) {
                Err(e) => Err(e),
                Ok(m) => Ok(ms.push(m)),
            },
        }
    }
}

/// The tickets of a search listing, one absolute path per non-empty line.
pub open spec fn decode_listing(workdir: Seq<char>, tickets_dir: Seq<char>, listing: Seq<char>) -> Result<
    Seq<(Seq<char>, Seq<char>, Seq<char>)>,
    PathProblem,
> {
    decode_all(workdir, tickets_dir, listed_paths(listing))
}

pub open spec fn ticket_views(v: Seq<Ticket>) -> Seq<(Seq<char>, Seq<char>, Seq<char>)> {
    v.map_values(|t: Ticket| t@)
}

/// Once a prefix of the paths fails, every longer prefix fails the same way.
proof fn lemma_decode_all_err(
    workdir: Seq<char>,
    tickets_dir: Seq<char>,
    paths: Seq<Seq<char>>,
    i: int,
    e: PathProblem,
)
    requires
        0 <= i <= paths.len(),
        decode_all(workdir, tickets_dir, paths.subrange(0, i)) == Err::<
            Seq<(Seq<char>, Seq<char>, Seq<char>)>,
            PathProblem,
        >(e),
    ensures
        decode_all(workdir, tickets_dir, paths) == Err::<
            Seq<(Seq<char>, Seq<char>, Seq<char>)>,
            PathProblem,
        >(e),
    decreases paths.len() - i,
{
    if i == paths.len() {
        assert(paths.subrange(0, i) =~= paths);
    } else {
        assert(paths.subrange(0, i + 1).drop_last() =~= paths.subrange(0, i));
        lemma_decode_all_err(workdir, tickets_dir, paths, i + 1, e);
    }
}

/// What creating a ticket writes: the file, where it lies in the working
/// tree, and the message that reports it.
pub struct NewTicket {
    pub abs_path: String,
    pub rel_path: String,
    pub contents: String,
    pub message: String,
}

/// A ticket from what the user typed: a name, and optionally a type and a
/// location, each normalised; the type defaults to `task` and the location
/// to `backlog`.
pub fn ticket_from_args(name: &str, ttype: Option<&str>, location: Option<&str>) -> (r: Ticket)
    ensures
        r.name@ == normalised(name@),
        r.ttype@ == normalised(
            match ttype {
                Some(t) => t@,
                None => "task"@,
            },
        ),
        r.location@ == normalised(
            match location {
                Some(l) => l@,
                None => "backlog"@,
            },
        ),
{
    let ttype = match ttype {
        Some(t) => t,
        None => "task",
    };
    let location = match location {
        Some(l) => l,
        None => "backlog",
    };
    Ticket {
        name: normalise_str(name),
        ttype: normalise_str(ttype),
        location: normalise_str(location),
    }
}

/// What starting work on a ticket asks of git, once it is known whether a
/// local branch named after the ticket exists.
pub struct CheckoutPlan {
    /// The branch to look up, create and switch to.
    pub branch: String,
    /// Whether to create the branch, at the commit that `head_refname` names.
    pub create_from_head: bool,
    /// The reference whose commit a new branch starts from.
    pub head_refname: &'static str,
    /// Whether creating the branch may overwrite an existing one.
    pub force: bool,
    /// The reference that `HEAD` is made to point at.
    pub head_ref: String,
}

fn owned_part(s: &str, from: usize, to: usize) -> (r: String)
    requires
        from <= to <= s@.len(),
    ensures
        r@ == s@.subrange(from as int, to as int),
{
    String::from_str(s.substring_char(from, to))
}

/// Start of the file name in `p[k..]`.
fn file_start(p: &Vec<char>, k: usize) -> (r: usize)
    requires
        k <= p@.len(),
    ensures
        k <= r <= p@.len(),
        file_name_of(p@.subrange(k as int, p@.len() as int)) == p@.subrange(r as int, p@.len() as int),
        parent_of(p@.subrange(k as int, p@.len() as int)) == if r == k {
            Seq::<char>::empty()
        } else {
            p@.subrange(k as int, r - 1)
        },
{
    let n = p.len();
    let ghost rel = p@.subrange(k as int, n as int);
    let slash = find_last(p, k, n, '/');
    match slash {
        Some(j) => {
            proof {
                lemma_last_index_is(rel, '/', j - k);
                assert(file_name_of(rel) =~= p@.subrange(j + 1, n as int));
                assert(parent_of(rel) =~= p@.subrange(k as int, j as int));
            }
            j + 1
        },
        None => {
            proof {
                lemma_last_index_is(rel, '/', -1);
                assert(file_name_of(rel) =~= rel);
            }
            k
        },
    }
}

/// End of the stem of the file name `p[f..]`.
fn stem_end(p: &Vec<char>, f: usize) -> (r: usize)
    requires
        f <= p@.len(),
    ensures
        f <= r <= p@.len(),
        stem_of(p@.subrange(f as int, p@.len() as int)) == p@.subrange(f as int, r as int),
{
    let n = p.len();
    let ghost name = p@.subrange(f as int, n as int);
    let dot = find_last(p, f, n, '.');
    match dot {
        Some(d) => {
            proof {
                lemma_last_index_is(name, '.', d - f);
                assert(name.subrange(0, d - f) =~= p@.subrange(f as int, d as int));
            }
            if d > f {
                d
            } else {
                n
            }
        },
        None => {
            proof {
                lemma_last_index_is(name, '.', -1);
            }
            n
        },
    }
}

/// Position of the `.` that parts name and type in the stem `p[f..e]`.
fn type_separator(p: &Vec<char>, f: usize, e: usize) -> (r: Option<usize>)
    requires
        f <= e <= p@.len(),
    ensures
        match r {
            Some(i) => f <= i < e && last_index(p@.subrange(f as int, e as int), '.') == i - f,
            None => last_index(p@.subrange(f as int, e as int), '.') < 0,
        },
{
    let ghost stem = p@.subrange(f as int, e as int);
    let sep = find_last(p, f, e, '.');
    proof {
        match sep {
            Some(i) => lemma_last_index_is(stem, '.', i - f),
            None => lemma_last_index_is(stem, '.', -1),
        }
    }
    sep
}

impl Ticket {
    /// The ticket's file name, `name.ttype.md`.
    pub fn fname(&self) -> (r: String)
        ensures
            r@ == ticket_file_name(self.name@, self.ttype@),
    {
        let mut r = String::from_str(self.name.as_str());
        r.append(".");
        r.append(self.ttype.as_str());
        r.append(".md");
        proof {
            reveal_strlit(".");
            reveal_strlit(".md");
            assert(r@ =~= ticket_file_name(self.name@, self.ttype@));
        }
        r
    }

    /// Where the ticket's file lies under the tickets directory.
    pub fn relative_path(&self) -> (r: String)
        ensures
            r@ == encode(self@),
    {
        let f = self.fname();
        if self.location.as_str().unicode_len() == 0 {
            f
        } else {
            let mut r = String::from_str(self.location.as_str());
            r.append("/");
            r.append(f.as_str());
            proof {
                reveal_strlit("/");
                assert(r@ =~= encode(self@));
            }
            r
        }
    }

    /// Reads the tickets of a search listing: each non-empty line is the
    /// absolute path of a ticket's file. The first path that cannot be read
    /// fails the whole listing.
    pub fn from_listing(workdir: &str, tickets_dir: &str, listing: &str) -> (r: Result<
        Vec<Ticket>,
        CliError,
    >)
        ensures
            match decode_listing(workdir@, tickets_dir@, listing@) {
                Ok(ms) => r is Ok && ticket_views(r->Ok_0@) == ms,
                Err(e) => r == Err::<Vec<Ticket>, CliError>(CliError::PathError(e)),
            },
    {
        let paths = split_listing(listing);
        let ghost ps = string_views(paths@);
        let mut out: Vec<Ticket> = Vec::new();
        let mut i: usize = 0;
        assert(ps.subrange(0, 0) =~= Seq::<Seq<char>>::empty());
        assert(ticket_views(out@) =~= Seq::empty());
        while i < paths.len()
            invariant
                ps == string_views(paths@),
                ps == listed_paths(listing@),
                i <= paths@.len(),
                decode_all(workdir@, tickets_dir@, ps.subrange(0, i as int)) == Ok::<
                    Seq<(Seq<char>, Seq<char>, Seq<char>)>,
                    PathProblem,
                >(ticket_views(out@)),
            decreases paths.len() - i,
        {
            assert(ps.subrange(0, i + 1).drop_last() =~= ps.subrange(0, i as int));
            assert(ps[i as int] == paths@[i as int]@);
            match Ticket::from_path(workdir, tickets_dir, paths[i].as_str()) {
                Ok(t) => {
                    let ghost before = out@;
                    out.push(t);
                    assert(ticket_views(out@) =~= ticket_views(before).push(t@));
                },
                Err(e) => {
                    proof {
                        let pe = decode(workdir@, tickets_dir@, ps[i as int])->Err_0;
                        lemma_decode_all_err(workdir@, tickets_dir@, ps, i + 1, pe);
                    }
                    return Err(e);
                },
            }
            i = i + 1;
        }
        assert(ps.subrange(0, i as int) =~= ps);
        Ok(out)
    }

    /// The tickets of a search listing. The caller searches the whole
    /// tickets directory for this ticket's file name, `self.fname()`, and
    /// hands over what the search printed.
    pub fn find_me(&self, workdir: &str, tickets_dir: &str, listing: &str) -> (r: Result<
        Vec<Ticket>,
        CliError,
    >)
        ensures
            match decode_listing(workdir@, tickets_dir@, listing@) {
                Ok(ms) => r is Ok && ticket_views(r->Ok_0@) == ms,
                Err(e) => r == Err::<Vec<Ticket>, CliError>(CliError::PathError(e)),
            },
    {
        Ticket::from_listing(workdir, tickets_dir, listing)
    }

    /// The one ticket of a search listing: none is `CantFindTicket`, more
    /// than one is `MoreThanOneTicket` with all of them.
    pub fn find_one(workdir: &str, tickets_dir: &str, listing: &str) -> (r: Result<
        Ticket,
        CliError,
    >)
        ensures
            match decode_listing(workdir@, tickets_dir@, listing@) {
                Ok(ms) => if ms.len() == 0 {
                    r == Err::<Ticket, CliError>(CliError::CantFindTicket)
                } else if ms.len() == 1 {
                    r is Ok && r->Ok_0@ == ms[0]
                } else {
                    r matches Err(CliError::MoreThanOneTicket(v)) && ticket_views(v@) == ms
                },
                Err(e) => r == Err::<Ticket, CliError>(CliError::PathError(e)),
            },
    {
        let mut tickets = match Ticket::from_listing(workdir, tickets_dir, listing) {
            Ok(v) => v,
            Err(e) => {
                return Err(e);
            },
        };
        if tickets.len() > 1 {
            return Err(CliError::MoreThanOneTicket(tickets));
        }
        match tickets.pop() {
            Some(t) => Ok(t),
            None => Err(CliError::CantFindTicket),
        }
    }

    /// The directory that holds the ticket's file.
    pub fn location_dir(&self, tickets_dir: &str) -> (r: String)
        ensures
            r@ == join(tickets_dir@, self.location@),
    {
        join_paths(tickets_dir, self.location.as_str())
    }

    /// Decides the creation of this ticket. `listing` is the output of a
    /// search of the whole tickets directory for the ticket's file name: any
    /// ticket in it is a collision. Otherwise the result says which file to
    /// write, with which contents, and how to report it.
    pub fn create(
        &self,
        repo_workdir: Option<&str>,
        main_workdir: &str,
        tickets_dir: &str,
        listing: &str,
    ) -> (r: Result<NewTicket, CliError>)
        ensures
            ({
                let abs = join(join(tickets_dir@, self.location@), ticket_file_name(self.name@, self.ttype@));
                match repo_workdir {
                    None => r == Err::<NewTicket, CliError>(CliError::CantOpenWorkDir),
                    Some(rw) => match decode_listing(main_workdir@, tickets_dir@, listing@) {
                        Err(e) => r == Err::<NewTicket, CliError>(CliError::PathError(e)),
                        Ok(ms) => if ms.len() > 0 {
                            r matches Err(CliError::TicketExists(v)) && ticket_views(v@) == ms
                        } else if !lies_under(rw@, abs) {
                            r == Err::<NewTicket, CliError>(CliError::PathError(PathProblem::NotUnderWorkdir))
                        } else {
                            r matches Ok(t) && t.abs_path@ == abs
                                && t.rel_path@ == relative_part(rw@, abs)
                                && t.contents@ == "---\n---\n# \n"@
                                && t.message@ == "Ticket created: '"@ + relative_part(rw@, abs) + "'"@
                        },
                    },
                }
            }),
    {
        let rw = match repo_workdir {
            Some(rw) => rw,
            None => {
                return Err(CliError::CantOpenWorkDir);
            },
        };
        let existing = match self.find_me(main_workdir, tickets_dir, listing) {
            Ok(v) => v,
            Err(e) => {
                return Err(e);
            },
        };
        if existing.len() > 0 {
            return Err(CliError::TicketExists(existing));
        }
        let dir = self.location_dir(tickets_dir);
        let f = self.fname();
        let abs_path = join_paths(dir.as_str(), f.as_str());
        let w = chars_of(rw);
        let a = chars_of(abs_path.as_str());
        let k = match rest_start_exec(&w, &a) {
            Some(k) => {
                if k >= a.len() {
                    return Err(CliError::PathError(PathProblem::NotUnderWorkdir));
                }
                k
            },
            None => {
                return Err(CliError::PathError(PathProblem::NotUnderWorkdir));
            },
        };
        let rel_path = owned_part(abs_path.as_str(), k, a.len());
        let mut message = String::from_str("Ticket created: '");
        message.append(rel_path.as_str());
        message.append("'");
        let contents = String::from_str("---\n---\n# \n");
        Ok(NewTicket { abs_path, rel_path, contents, message })
    }

    /// The reference of the branch named after the ticket.
    pub fn head_ref(&self) -> (r: String)
        ensures
            r@ == "refs/heads/"@ + self.name@,
    {
        let mut r = String::from_str("refs/heads/");
        r.append(self.name.as_str());
        r
    }

    /// Starts work on the ticket: makes a local branch named after it from
    /// the `HEAD` commit, unless one exists, and points `HEAD` at that
    /// branch. Returns the branch name.
    /// Decides what starting work asks of git: the branch is the ticket's
    /// name; it is created from the `HEAD` commit, without overwriting,
    /// exactly when no local branch of that name was found; `HEAD` is then
    /// pointed at `refs/heads/<name>`.
    pub fn checkout_plan(&self, branch_found: bool) -> (r: CheckoutPlan)
        ensures
            r.branch@ == self.name@,
            r.create_from_head == !branch_found,
            r.head_refname@ == "HEAD"@,
            r.force == false,
            r.head_ref@ == "refs/heads/"@ + self.name@,
    {
        CheckoutPlan {
            branch: self.name.clone(),
            create_from_head: !branch_found,
            head_refname: "HEAD",
            force: false,
            head_ref: self.head_ref(),
        }
    }

    /// Starts work on the ticket by carrying out `checkout_plan`: any error
    /// of the branch lookup counts as no branch; a failure of any later git
    /// call ends the work there and is returned. Returns the branch name.
    pub fn checkout(&self, repo: &git2::Repository) -> (r: Result<String, CliError>)
        ensures
            r is Ok ==> r->Ok_0@ == self.name@,
            r is Err ==> r matches Err(CliError::Git(_)),
    {
        let found = find_local_branch(repo, self.name.as_str()).is_ok();
        let plan = self.checkout_plan(found);
        if plan.create_from_head {
            let oid = match refname_to_id(repo, plan.head_refname) {
                Ok(oid) => oid,
                Err(e) => {
                    return Err(CliError::Git(e));
                },
            };
            let head = match find_commit(repo, oid) {
                Ok(c) => c,
                Err(e) => {
                    return Err(CliError::Git(e));
                },
            };
            match create_branch(repo, plan.branch.as_str(), &head, plan.force) {
                Ok(()) => {},
                Err(e) => {
                    return Err(CliError::Git(e));
                },
            }
        }
        match set_head(repo, plan.head_ref.as_str()) {
            Ok(()) => Ok(plan.branch),
            Err(e) => Err(CliError::Git(e)),
        }
    }

    /// Reads a ticket from the absolute path of its file.
    pub fn from_path(workdir: &str, tickets_dir: &str, ticket_path: &str) -> (r: Result<
        Ticket,
        CliError,
    >)
        ensures
            match decode(workdir@, tickets_dir@, ticket_path@) {
                Ok(m) => r is Ok && r->Ok_0@ == m,
                Err(e) => r == Err::<Ticket, CliError>(CliError::PathError(e)),
            },
    {
        let w = chars_of(workdir);
        let t = chars_of(tickets_dir);
        let p = chars_of(ticket_path);
        let n = p.len();
        match rest_start_exec(&w, &p) {
            Some(k) => {
                if k >= n {
                    return Err(CliError::PathError(PathProblem::NotUnderWorkdir));
                }
            },
            None => {
                return Err(CliError::PathError(PathProblem::NotUnderWorkdir));
            },
        }
        let k = match rest_start_exec(&t, &p) {
            Some(k) => {
                if k >= n {
                    return Err(CliError::PathError(PathProblem::NotUnderTicketsDir));
                }
                k
            },
            None => {
                return Err(CliError::PathError(PathProblem::NotUnderTicketsDir));
            },
        };
        let ghost rel = p@.subrange(k as int, n as int);
        assert(rel == relative_part(tickets_dir@, ticket_path@));
        let fstart = file_start(&p, k);
        if (n - fstart == 1 && p[fstart] == '.') || (n - fstart == 2 && p[fstart] == '.' && p[
            fstart + 1] == '.') {
            proof {
                let f = p@.subrange(fstart as int, n as int);
                if n - fstart == 1 {
                    assert(f =~= seq!['.']);
                } else {
                    assert(f =~= seq!['.', '.']);
                }
            }
            return Err(CliError::PathError(PathProblem::NoFileName));
        }
        proof {
            let f = p@.subrange(fstart as int, n as int);
            assert(f != seq!['.'] && f != seq!['.', '.']) by {
                if f == seq!['.'] {
                    assert(f[0] == '.');
                }
                if f == seq!['.', '.'] {
                    assert(f[0] == '.' && f[1] == '.');
                }
            }
        }
        let stem_end = stem_end(&p, fstart);
        match type_separator(&p, fstart, stem_end) {
            None => Err(CliError::PathError(PathProblem::MissingType)),
            Some(e) => {
                proof {
                    let stem = p@.subrange(fstart as int, stem_end as int);
                    assert(stem.subrange(0, e - fstart) =~= p@.subrange(fstart as int, e as int));
                    assert(stem.subrange(e - fstart + 1, stem.len() as int) =~= p@.subrange(
                        e + 1,
                        stem_end as int,
                    ));
                }
                let name = owned_part(ticket_path, fstart, e);
                let ttype = owned_part(ticket_path, e + 1, stem_end);
                let location = if fstart == k {
                    String::new()
                } else {
                    owned_part(ticket_path, k, fstart - 1)
                };
                Ok(Ticket { name, ttype, location })
            },
        }
    }
}

} // verus!
