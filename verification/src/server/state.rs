//! The server's shared state: who is online, the recent chat, the shared files, the
//! users' name colors and the count of chat messages.
use vstd::prelude::*;

use crate::keyed::{drop_key, set_key, value_of};
use crate::protocol::{opt_seq, texts};
use crate::text::{owned, str_eq};

verus! {

broadcast use vstd::string::group_string_axioms;

/// A shared file: its (sanitized) name and its bytes.
pub struct StoredFile {
    pub filename: String,
    pub data: Vec<u8>,
}

/// A shared file under its id.
pub struct FileEntry {
    pub id: String,
    pub file: StoredFile,
}

/// A user's chosen name color.
pub struct UserColor {
    pub name: String,
    pub color: String,
}

/// How many chat lines the server keeps for its dashboard and for the assistant.
pub const HISTORY_LIMIT: usize = 20;

/// What the server shares between its connections.
pub struct ServerState {
    pub server_name: String,
    pub token: String,
    pub debug: bool,
    pub users: Vec<String>,
    pub history: Vec<String>,
    pub files: Vec<FileEntry>,
    pub user_colors: Vec<UserColor>,
    pub total_messages: usize,
}

/// The server's state as mathematical values: the files and colors are lists keyed by
/// id and by user name (see `crate::keyed`).
#[verifier::ext_equal]
pub struct ServerView {
    pub server_name: Seq<char>,
    pub token: Seq<char>,
    pub debug: bool,
    pub users: Seq<Seq<char>>,
    pub history: Seq<Seq<char>>,
    pub files: Seq<(Seq<char>, (Seq<char>, Seq<u8>))>,
    pub colors: Seq<(Seq<char>, Seq<char>)>,
    pub total_messages: int,
}

/// The files as ids with names and bytes.
pub open spec fn files_view(v: Seq<FileEntry>) -> Seq<(Seq<char>, (Seq<char>, Seq<u8>))> {
    v.map_values(|e: FileEntry| (e.id@, (e.file.filename@, e.file.data@)))
}

/// The colors as user names with colors.
pub open spec fn colors_view(v: Seq<UserColor>) -> Seq<(Seq<char>, Seq<char>)> {
    v.map_values(|e: UserColor| (e.name@, e.color@))
}

impl View for ServerState {
    type V = ServerView;

    open spec fn view(&self) -> ServerView {
        ServerView {
            server_name: self.server_name@,
            token: self.token@,
            debug: self.debug,
            users: texts(self.users@),
            history: texts(self.history@),
            files: files_view(self.files@),
            colors: colors_view(self.user_colors@),
            total_messages: self.total_messages as int,
        }
    }
}

/// The invariant: nobody is online twice, and the history holds at most
/// `HISTORY_LIMIT` lines.
pub open spec fn server_wf(v: ServerView) -> bool {
    &&& v.users.no_duplicates()
    &&& v.history.len() <= HISTORY_LIMIT
}

/// The online users with `u` (who stays once).
pub open spec fn joined(users: Seq<Seq<char>>, u: Seq<char>) -> Seq<Seq<char>> {
    if users.contains(u) {
        users
    } else {
        users.push(u)
    }
}

/// The online users without `u`, in order.
pub open spec fn left(users: Seq<Seq<char>>, u: Seq<char>) -> Seq<Seq<char>>
    decreases users.len(),
{
    if users.len() == 0 {
        users
    } else {
        let r = left(users.drop_last(), u);
        if users.last() == u {
            r
        } else {
            r.push(users.last())
        }
    }
}

/// The history after one more line: the oldest line goes when the history is full.
pub open spec fn recorded(h: Seq<Seq<char>>, line: Seq<char>) -> Seq<Seq<char>> {
    if h.len() >= HISTORY_LIMIT {
        h.drop_first().push(line)
    } else {
        h.push(line)
    }
}

/// The history after the lines `lines`, one after the other.
pub open spec fn recorded_all(h: Seq<Seq<char>>, lines: Seq<Seq<char>>) -> Seq<Seq<char>>
    decreases lines.len(),
{
    if lines.len() == 0 {
        h
    } else {
        recorded(recorded_all(h, lines.drop_last()), lines.last())
    }
}

/// The message count after one more message: it wraps around at `usize::MAX`, as an
/// atomic `fetch_add` does.
pub open spec fn counted(n: int) -> int {
    if n == usize::MAX {
        0
    } else {
        n + 1
    }
}

/// The history keeps the most recent lines: after any lines, it is the last
/// `HISTORY_LIMIT` (or fewer) of the lines it held followed by the new ones.
pub proof fn lemma_history_keeps_recent(h: Seq<Seq<char>>, lines: Seq<Seq<char>>)
    requires
        h.len() <= HISTORY_LIMIT,
    ensures
        recorded_all(h, lines) == (h + lines).skip(
            if h.len() + lines.len() > HISTORY_LIMIT {
                h.len() + lines.len() - HISTORY_LIMIT
            } else {
                0
            },
        ),
        recorded_all(h, lines).len() <= HISTORY_LIMIT,
    decreases lines.len(),
{
    if lines.len() > 0 {
        let prev = lines.drop_last();
        lemma_history_keeps_recent(h, prev);
        let all = h + lines;
        assert(h + prev == all.drop_last());
        let k = if h.len() + prev.len() > HISTORY_LIMIT {
            h.len() + prev.len() - HISTORY_LIMIT
        } else {
            0
        };
        let r = recorded_all(h, prev);
        assert(r == all.drop_last().skip(k));
        if r.len() >= HISTORY_LIMIT {
            assert(r.drop_first().push(lines.last()) =~= all.skip(k + 1));
        } else {
            assert(r.push(lines.last()) =~= all.skip(k));
        }
    }
}

proof fn lemma_texts_take(v: Seq<String>, i: int)
    requires
        0 <= i < v.len(),
    ensures
        texts(v.take(i + 1)).drop_last() == texts(v.take(i)),
        texts(v.take(i + 1)).last() == v[i]@,
        texts(v.take(i + 1)).len() == i + 1,
{
    assert(texts(v.take(i + 1)).drop_last() =~= texts(v.take(i)));
}

pub(crate) proof fn lemma_left_no_duplicates(users: Seq<Seq<char>>, u: Seq<char>)
    requires
        users.no_duplicates(),
    ensures
        left(users, u).no_duplicates(),
        forall|x: Seq<char>| left(users, u).contains(x) <==> users.contains(x) && x != u,
    decreases users.len(),
{
    if users.len() > 0 {
        let d = users.drop_last();
        assert(d.no_duplicates());
        lemma_left_no_duplicates(d, u);
        assert forall|x: Seq<char>| users.contains(x) <==> d.contains(x) || x == users.last() by {
            if users.contains(x) {
                let i = choose|i: int| 0 <= i < users.len() && users[i] == x;
                if i < users.len() - 1 {
                    assert(d[i] == x);
                }
            }
            if d.contains(x) {
                let i = choose|i: int| 0 <= i < d.len() && d[i] == x;
                assert(users[i] == x);
            }
        }
        let r = left(d, u);
        if users.last() != u {
            assert(!d.contains(users.last())) by {
                if d.contains(users.last()) {
                    let i = choose|i: int| 0 <= i < d.len() && d[i] == users.last();
                    assert(users[i] == users[users.len() - 1]);
                }
            }
            assert forall|x: Seq<char>| r.push(users.last()).contains(x) <==> r.contains(x) || x
                == users.last() by {
                if r.push(users.last()).contains(x) {
                    let i = choose|i: int| 0 <= i < r.len() + 1 && r.push(users.last())[i] == x;
                    if i < r.len() {
                        assert(r[i] == x);
                    }
                }
                if r.contains(x) {
                    let i = choose|i: int| 0 <= i < r.len() && r[i] == x;
                    assert(r.push(users.last())[i] == x);
                }
                if x == users.last() {
                    assert(r.push(users.last())[r.len() as int] == x);
                }
            }
        }
    }
}

impl StoredFile {
    /// A copy of the file.
    pub fn copy(&self) -> (r: StoredFile)
        ensures
            r.filename@ == self.filename@,
            r.data@ == self.data@,
    {
        StoredFile { filename: self.filename.clone(), data: self.data.clone() }
    }
}

impl ServerState {
    /// The invariant (see `server_wf`).
    pub open spec fn wf(&self) -> bool {
        server_wf(self@)
    }

    /// A server named `server_name` that admits clients with `token`: nobody online, no
    /// history, files or colors, and no messages counted yet.
    pub fn new(server_name: String, token: String, debug: bool) -> (r: Self)
        ensures
            r.wf(),
            r@ == (ServerView {
                server_name: server_name@,
                token: token@,
                debug,
                users: seq![],
                history: seq![],
                files: seq![],
                colors: seq![],
                total_messages: 0,
            }),
    {
        let r = ServerState {
            server_name,
            token,
            debug,
            users: Vec::new(),
            history: Vec::new(),
            files: Vec::new(),
            user_colors: Vec::new(),
            total_messages: 0,
        };
        assert(r@ =~= ServerView {
            server_name: r.server_name@,
            token: r.token@,
            debug,
            users: seq![],
            history: seq![],
            files: seq![],
            colors: seq![],
            total_messages: 0,
        });
        r
    }

    /// Whether `u` is online.
    pub fn is_online(&self, u: &str) -> (r: bool)
        ensures
            r == self@.users.contains(u@),
    {
        let n = self.users.len();
        for i in 0..n
            invariant
                n == self.users@.len(),
                forall|j: int| 0 <= j < i ==> self@.users[j] != u@,
        {
            if str_eq(self.users[i].as_str(), u) {
                assert(self@.users[i as int] == u@);
                return true;
            }
        }
        false
    }

    /// `u` comes online (once).
    pub fn add_user(&mut self, u: &str)
        requires
            old(self).wf(),
        ensures
            final(self).wf(),
            final(self)@ == (ServerView { users: joined(old(self)@.users, u@), ..old(self)@ }),
    {
        if !self.is_online(u) {
            let ghost before = self.users@;
            self.users.push(owned(u));
            assert(texts(self.users@) =~= texts(before).push(u@));
            assert(self@.users.no_duplicates()) by {
                assert forall|i: int, j: int|
                    0 <= i < j < self@.users.len() implies self@.users[i] != self@.users[j] by {
                    if j == self@.users.len() - 1 {
                        assert(old(self)@.users[i] == self@.users[i]);
                    } else {
                        assert(old(self)@.users[i] == self@.users[i]);
                        assert(old(self)@.users[j] == self@.users[j]);
                    }
                }
            }
        }
        assert(self@ =~= ServerView { users: joined(old(self)@.users, u@), ..old(self)@ });
    }

    /// `u` goes offline.
    pub fn remove_user(&mut self, u: &str)
        requires
            old(self).wf(),
        ensures
            final(self).wf(),
            final(self)@ == (ServerView { users: left(old(self)@.users, u@), ..old(self)@ }),
    {
        let mut r: Vec<String> = Vec::new();
        let n = self.users.len();
        for i in 0..n
            invariant
                n == self.users@.len(),
                texts(r@) == left(texts(self.users@.take(i as int)), u@),
        {
            proof {
                lemma_texts_take(self.users@, i as int);
            }
            if !str_eq(self.users[i].as_str(), u) {
                let ghost before = r@;
                r.push(self.users[i].clone());
                assert(texts(r@) =~= texts(before).push(self.users@[i as int]@));
            }
        }
        assert(self.users@.take(n as int) == self.users@);
        proof {
            lemma_left_no_duplicates(old(self)@.users, u@);
        }
        self.users = r;
        assert(self@ =~= ServerView { users: left(old(self)@.users, u@), ..old(self)@ });
    }

    /// The online users, in the order they came.
    pub fn online_users(&self) -> (r: Vec<String>)
        ensures
            texts(r@) == self@.users,
    {
        let mut r: Vec<String> = Vec::new();
        let n = self.users.len();
        for i in 0..n
            invariant
                n == self.users@.len(),
                texts(r@) == texts(self.users@.take(i as int)),
        {
            proof {
                lemma_texts_take(self.users@, i as int);
            }
            let ghost before = r@;
            r.push(self.users[i].clone());
            assert(texts(r@) =~= texts(before).push(self.users@[i as int]@));
        }
        assert(self.users@.take(n as int) == self.users@);
        r
    }

    /// A chat line joins the history; when the history is full its oldest line goes.
    pub fn record_line(&mut self, line: String)
        requires
            old(self).wf(),
        ensures
            final(self).wf(),
            final(self)@ == (ServerView {
                history: recorded(old(self)@.history, line@),
                ..old(self)@
            }),
    {
        if self.history.len() >= HISTORY_LIMIT {
            self.history.remove(0);
        }
        self.history.push(line);
        assert(self@.history =~= recorded(old(self)@.history, line@));
        assert(self@ =~= ServerView { history: recorded(old(self)@.history, line@), ..old(self)@ });
    }

    /// One more chat message is counted.
    pub fn count_message(&mut self)
        requires
            old(self).wf(),
        ensures
            final(self).wf(),
            final(self)@ == (ServerView {
                total_messages: counted(old(self)@.total_messages),
                ..old(self)@
            }),
    {
        self.total_messages = self.total_messages.wrapping_add(1);
        assert(self@ =~= ServerView {
            total_messages: counted(old(self)@.total_messages),
            ..old(self)@
        });
    }

    /// The color `u` chose, if any.
    pub fn color_of(&self, u: &str) -> (r: Option<String>)
        ensures
            opt_seq(r) == value_of(self@.colors, u@),
    {
        let n = self.user_colors.len();
        let mut r: Option<String> = None;
        for i in 0..n
            invariant
                n == self.user_colors@.len(),
                opt_seq(r) == value_of(colors_view(self.user_colors@.take(i as int)), u@),
        {
            assert(colors_view(self.user_colors@.take(i + 1)).drop_last() =~= colors_view(
                self.user_colors@.take(i as int),
            ));
            if str_eq(self.user_colors[i].name.as_str(), u) {
                r = Some(self.user_colors[i].color.clone());
            }
        }
        assert(self.user_colors@.take(n as int) == self.user_colors@);
        r
    }

    fn colors_without(&self, u: &str) -> (r: Vec<UserColor>)
        ensures
            colors_view(r@) == drop_key(self@.colors, u@),
    {
        let mut r: Vec<UserColor> = Vec::new();
        let n = self.user_colors.len();
        for i in 0..n
            invariant
                n == self.user_colors@.len(),
                colors_view(r@) == drop_key(colors_view(self.user_colors@.take(i as int)), u@),
        {
            assert(colors_view(self.user_colors@.take(i + 1)).drop_last() =~= colors_view(
                self.user_colors@.take(i as int),
            ));
            if !str_eq(self.user_colors[i].name.as_str(), u) {
                let e = UserColor {
                    name: self.user_colors[i].name.clone(),
                    color: self.user_colors[i].color.clone(),
                };
                let ghost before = r@;
                r.push(e);
                assert(colors_view(r@) =~= colors_view(before).push(
                    (self.user_colors@[i as int].name@, self.user_colors@[i as int].color@),
                ));
            }
        }
        assert(self.user_colors@.take(n as int) == self.user_colors@);
        r
    }

    /// `u` chooses the color `c`.
    pub fn set_color(&mut self, u: &str, c: &str)
        requires
            old(self).wf(),
        ensures
            final(self).wf(),
            final(self)@ == (ServerView { colors: set_key(old(self)@.colors, u@, c@), ..old(self)@ }),
    {
        let mut r = self.colors_without(u);
        let ghost before = r@;
        r.push(UserColor { name: owned(u), color: owned(c) });
        assert(colors_view(r@) =~= colors_view(before).push((u@, c@)));
        self.user_colors = r;
        assert(self@ =~= ServerView { colors: set_key(old(self)@.colors, u@, c@), ..old(self)@ });
    }

    /// `u` goes back to the default color.
    pub fn clear_color(&mut self, u: &str)
        requires
            old(self).wf(),
        ensures
            final(self).wf(),
            final(self)@ == (ServerView { colors: drop_key(old(self)@.colors, u@), ..old(self)@ }),
    {
        self.user_colors = self.colors_without(u);
        assert(self@ =~= ServerView { colors: drop_key(old(self)@.colors, u@), ..old(self)@ });
    }

    /// A copy of the file stored under `id`, if any.
    pub fn find_file(&self, id: &str) -> (r: Option<StoredFile>)
        ensures
            match r {
                Some(f) => value_of(self@.files, id@) == Some((f.filename@, f.data@)),
                None => value_of(self@.files, id@) is None,
            },
    {
        let n = self.files.len();
        let mut found: Option<usize> = None;
        for i in 0..n
            invariant
                n == self.files@.len(),
                match found {
                    Some(k) => k < n && value_of(files_view(self.files@.take(i as int)), id@)
                        == Some((self.files@[k as int].file.filename@, self.files@[k as int].file.data@)),
                    None => value_of(files_view(self.files@.take(i as int)), id@) is None,
                },
        {
            assert(files_view(self.files@.take(i + 1)).drop_last() =~= files_view(
                self.files@.take(i as int),
            ));
            if str_eq(self.files[i].id.as_str(), id) {
                found = Some(i);
            }
        }
        assert(self.files@.take(n as int) == self.files@);
        match found {
            Some(k) => Some(self.files[k].file.copy()),
            None => None,
        }
    }

    /// Stores `file` under `id`, in place of any file stored under it before.
    pub fn store_file(&mut self, id: String, file: StoredFile)
        requires
            old(self).wf(),
        ensures
            final(self).wf(),
            final(self)@ == (ServerView {
                files: set_key(old(self)@.files, id@, (file.filename@, file.data@)),
                ..old(self)@
            }),
    {
        let mut r: Vec<FileEntry> = Vec::new();
        let n = self.files.len();
        for i in 0..n
            invariant
                n == self.files@.len(),
                files_view(r@) == drop_key(files_view(self.files@.take(i as int)), id@),
        {
            assert(files_view(self.files@.take(i + 1)).drop_last() =~= files_view(
                self.files@.take(i as int),
            ));
            if !str_eq(self.files[i].id.as_str(), id.as_str()) {
                let e = FileEntry { id: self.files[i].id.clone(), file: self.files[i].file.copy() };
                let ghost before = r@;
                r.push(e);
                assert(files_view(r@) =~= files_view(before).push(
                    (
                        self.files@[i as int].id@,
                        (self.files@[i as int].file.filename@, self.files@[i as int].file.data@),
                    ),
                ));
            }
        }
        assert(self.files@.take(n as int) == self.files@);
        let ghost before = r@;
        let ghost entry = (id@, (file.filename@, file.data@));
        r.push(FileEntry { id, file });
        assert(files_view(r@) =~= files_view(before).push(entry));
        self.files = r;
        assert(self@ =~= ServerView {
            files: set_key(old(self)@.files, entry.0, entry.1),
            ..old(self)@
        });
    }

    /// How many files are shared.
    pub fn file_count(&self) -> (r: usize)
        ensures
            r == self@.files.len(),
    {
        self.files.len()
    }
}

} // verus!
