//! What the bot remembers: the osu! account linked to each Discord user,
//! and the last beatmap link seen in each channel.
use vstd::prelude::*;
use redb::{ReadableDatabase, ReadableTable};
use std::collections::HashMap;

use crate::utils::osu_utils::{embed_views, map_url_from_msg, map_url_spec, opt_view, EmbedText};

verus! {

broadcast use vstd::std_specs::hash::group_hash_axioms;

/// The texts of a chat message: its id, its content and its embeds.
pub struct MessageText {
    pub id: u64,
    pub content: String,
    pub embeds: Vec<EmbedText>,
}

/// The osu! link a message carries.
pub open spec fn message_link(m: MessageText) -> Option<Seq<char>> {
    map_url_spec(m.content@, embed_views(m.embeds@))
}

/// The osu! link of the first message of `msgs` that carries one.
pub open spec fn first_message_link(msgs: Seq<MessageText>) -> Option<Seq<char>>
    decreases msgs.len(),
{
    if msgs.len() == 0 {
        None
    } else {
        match message_link(msgs[0]) {
            Some(l) => Some(l),
            None => first_message_link(msgs.drop_first()),
        }
    }
}

/// What to do to learn a channel's last beatmap link.
pub enum ChannelMapLookup {
    /// The link is known.
    Known(String),
    /// The link is unknown: read the channel's messages, those before this
    /// message when it is given, else the latest.
    ReadMessages(Option<u64>),
}

/// The beatmap links last seen in each channel (by channel id), and for
/// each channel the oldest message already read.
pub struct ChannelMapDb {
    maps: HashMap<u64, String>,
    first_checked_msg: HashMap<u64, u64>,
}

impl ChannelMapDb {
    /// The link last seen in each channel.
    pub closed spec fn links(&self) -> Map<u64, String> {
        self.maps@
    }

    /// The oldest message read in each channel.
    pub closed spec fn checked(&self) -> Map<u64, u64> {
        self.first_checked_msg@
    }

    /// No channel has a link or a read message yet.
    pub fn new() -> (r: Self)
        ensures
            r.links() == Map::<u64, String>::empty(),
            r.checked() == Map::<u64, u64>::empty(),
    {
        ChannelMapDb { maps: HashMap::new(), first_checked_msg: HashMap::new() }
    }

    /// Records `map_url` as the channel's link; the message it came in
    /// becomes the channel's oldest read message when none is recorded.
    pub fn set_channel_map(&mut self, channel_id: u64, map_url: String, msg_id: Option<u64>)
        ensures
            final(self).links() == old(self).links().insert(channel_id, map_url),
            final(self).checked() == if !old(self).checked().contains_key(channel_id)
                && msg_id is Some {
                old(self).checked().insert(channel_id, msg_id->0)
            } else {
                old(self).checked()
            },
    {
        self.maps.insert(channel_id, map_url);
        if !self.first_checked_msg.contains_key(&channel_id) {
            if let Some(id) = msg_id {
                self.set_last_checked_msg(channel_id, id);
            }
        }
    }

    /// The channel's link when it is known; otherwise where to read the
    /// channel's messages from.
    pub fn get_channel_map(&self, channel_id: u64) -> (r: ChannelMapLookup)
        ensures
            self.links().contains_key(channel_id) ==> r == ChannelMapLookup::Known(
                self.links()[channel_id],
            ),
            !self.links().contains_key(channel_id) ==> r == ChannelMapLookup::ReadMessages(
                if self.checked().contains_key(channel_id) {
                    Some(self.checked()[channel_id])
                } else {
                    None
                },
            ),
    {
        match self.maps.get(&channel_id) {
            Some(url) => ChannelMapLookup::Known(url.clone()),
            None => ChannelMapLookup::ReadMessages(
                match self.first_checked_msg.get(&channel_id) {
                    Some(id) => Some(*id),
                    None => None,
                },
            ),
        }
    }

    /// Takes in the messages read from a channel (newest first): the link
    /// of the first that carries one is the answer, and the last message
    /// becomes the channel's oldest read message. No messages: no answer,
    /// nothing recorded. The channel's link is left as it was.
    pub fn finish_channel_scan(&mut self, channel_id: u64, msgs: &Vec<MessageText>) -> (r: Option<String>)
        ensures
            final(self).links() == old(self).links(),
            msgs.len() == 0 ==> r is None && final(self).checked() == old(self).checked(),
            msgs.len() > 0 ==> opt_view(r) == first_message_link(msgs@) && final(self).checked()
                == old(self).checked().insert(channel_id, msgs@.last().id),
    {
        if msgs.len() == 0 {
            return None;
        }
        let mut found: Option<String> = None;
        let mut k: usize = 0;
        proof {
            assert(msgs@.subrange(0, msgs.len() as int) =~= msgs@);
        }
        while k < msgs.len() && found.is_none()
            invariant
                k <= msgs.len(),
                found is None ==> first_message_link(msgs@) == first_message_link(
                    msgs@.subrange(k as int, msgs.len() as int),
                ),
                found is Some ==> opt_view(found) == first_message_link(msgs@),
            decreases msgs.len() - k,
        {
            let ghost rest = msgs@.subrange(k as int, msgs.len() as int);
            proof {
                assert(rest[0] == msgs@[k as int]);
                assert(rest.drop_first() =~= msgs@.subrange(k + 1, msgs.len() as int));
            }
            let link = map_url_from_msg(msgs[k].content.as_str(), &msgs[k].embeds);
            proof {
                assert(message_link(msgs@[k as int]) == opt_view(link));
            }
            found = link;
            k = k + 1;
        }
        proof {
            if found is None {
                assert(msgs@.subrange(k as int, msgs.len() as int).len() == 0);
            }
        }
        let last = msgs[msgs.len() - 1].id;
        self.set_last_checked_msg(channel_id, last);
        found
    }

    fn set_last_checked_msg(&mut self, channel_id: u64, msg_id: u64)
        ensures
            final(self).links() == old(self).links(),
            final(self).checked() == old(self).checked().insert(channel_id, msg_id),
    {
        self.first_checked_msg.insert(channel_id, msg_id);
    }
}

/// The outcome of a failed database operation.
#[verifier::external_type_specification]
#[verifier::external_body]
pub struct ExRedbError(redb::Error);

/// A redb database file, holding tables that map a `u64` key to a `u32` or to
/// a text. Its contents are named `table_exists`, `u32_entries` and
/// `text_entries`; each operation below runs in a transaction of its own.
#[verifier::external_type_specification]
#[verifier::external_body]
pub struct ExRedbDatabase(redb::Database);

/// Whether the table called `name` exists in the database file.
pub uninterp spec fn table_exists(db: redb::Database, name: Seq<char>) -> bool;

/// What the `u64` to `u32` table called `name` holds (nothing when it does
/// not exist).
pub uninterp spec fn u32_entries(db: redb::Database, name: Seq<char>) -> Map<u64, u32>;

/// What the `u64` to text table called `name` holds (nothing when it does
/// not exist).
pub uninterp spec fn text_entries(db: redb::Database, name: Seq<char>) -> Map<u64, Seq<char>>;

/// The file that a database handle was opened on.
pub uninterp spec fn database_file(db: redb::Database) -> Seq<char>;

/// The tables other than `a` and `b` are as they were, and the handle still
/// stands for the same file.
pub open spec fn untouched_except(before: redb::Database, after: redb::Database, a: Seq<char>, b: Seq<char>) -> bool {
    &&& database_file(after) == database_file(before)
    &&& forall|n: Seq<char>| n != a && n != b ==> #[trigger] u32_entries(after, n) == u32_entries(before, n)
    &&& forall|n: Seq<char>| n != a && n != b ==> #[trigger] text_entries(after, n) == text_entries(before, n)
    &&& forall|n: Seq<char>| n != a && n != b ==> #[trigger] table_exists(after, n) == table_exists(before, n)
}

/// The entries of the tables `ids` and `names` are as they were.
pub open spec fn same_entries(before: redb::Database, after: redb::Database, ids: Seq<char>, names: Seq<char>) -> bool {
    &&& u32_entries(after, ids) == u32_entries(before, ids)
    &&& text_entries(after, names) == text_entries(before, names)
    &&& u32_entries(after, names) == u32_entries(before, names)
    &&& text_entries(after, ids) == text_entries(before, ids)
}

/// `redb::Database::create` on `path` (which opens the file, or makes a new
/// database in it), then a write transaction that opens (and so creates) the
/// `u64` to `u32` table `ids` and the `u64` to text table `names` and
/// commits. `TableDefinition::new` panics on an empty name, hence the
/// `requires`. What the file already held is not known: the contract states
/// only the file and that both tables exist afterwards.
#[verifier::external_body]
fn open_tables(path: &str, ids: &str, names: &str) -> (r: Result<redb::Database, redb::Error>)
    requires
        ids@.len() > 0,
        names@.len() > 0,
    ensures
        r matches Ok(t) ==> table_exists(t, ids@) && table_exists(t, names@) && database_file(t)
            == path@,
{
    let db = redb::Database::create(path)?;
    let txn = db.begin_write()?;
    txn.open_table(redb::TableDefinition::<u64, u32>::new(ids))?;
    txn.open_table(redb::TableDefinition::<u64, String>::new(names))?;
    txn.commit()?;
    Ok(db)
}

/// A write transaction of redb that opens (creating them when missing) the
/// `u64` to `u32` table `ids` and the `u64` to text table `names`, inserts
/// `key` -> `value` into `ids` with `Table::insert`, removes `key` from
/// `names` with `Table::remove`, and commits. When it succeeds, the tables
/// hold exactly that change and nothing else changed. A failure before the
/// commit drops the transaction, which redb rolls back; a transaction is
/// atomic, so after any failure the tables hold either what they held or
/// exactly that change, and the handle keeps its file.
#[verifier::external_body]
fn link_in_ids(db: &mut redb::Database, ids: &str, names: &str, key: u64, value: u32) -> (r: Result<(), redb::Error>)
    requires
        ids@.len() > 0,
        names@.len() > 0,
        ids@ != names@,
    ensures
        r is Ok ==> {
            &&& u32_entries(*final(db), ids@) == u32_entries(*old(db), ids@).insert(key, value)
            &&& text_entries(*final(db), names@) == text_entries(*old(db), names@).remove(key)
            &&& u32_entries(*final(db), names@) == u32_entries(*old(db), names@)
            &&& text_entries(*final(db), ids@) == text_entries(*old(db), ids@)
            &&& table_exists(*final(db), ids@)
            &&& table_exists(*final(db), names@)
            &&& untouched_except(*old(db), *final(db), ids@, names@)
        },
        r is Err ==> {
            &&& untouched_except(*old(db), *final(db), ids@, names@)
            &&& same_entries(*old(db), *final(db), ids@, names@) || {
                &&& u32_entries(*final(db), ids@) == u32_entries(*old(db), ids@).insert(key, value)
                &&& text_entries(*final(db), names@) == text_entries(*old(db), names@).remove(key)
                &&& u32_entries(*final(db), names@) == u32_entries(*old(db), names@)
                &&& text_entries(*final(db), ids@) == text_entries(*old(db), ids@)
            }
        },
{
    let txn = db.begin_write()?;
    txn.open_table(redb::TableDefinition::<u64, u32>::new(ids))?.insert(key, value)?;
    txn.open_table(redb::TableDefinition::<u64, String>::new(names))?.remove(key)?;
    txn.commit()?;
    Ok(())
}

/// A write transaction of redb that opens (creating them when missing) the
/// `u64` to `u32` table `ids` and the `u64` to text table `names`, inserts
/// `key` -> `value` into `names` with `Table::insert`, removes `key` from
/// `ids` with `Table::remove`, and commits. When it succeeds, the tables
/// hold exactly that change and nothing else changed. A failure before the
/// commit drops the transaction, which redb rolls back; a transaction is
/// atomic, so after any failure the tables hold either what they held or
/// exactly that change, and the handle keeps its file.
#[verifier::external_body]
fn link_in_names(db: &mut redb::Database, ids: &str, names: &str, key: u64, value: &str) -> (r: Result<(), redb::Error>)
    requires
        ids@.len() > 0,
        names@.len() > 0,
        ids@ != names@,
    ensures
        r is Ok ==> {
            &&& text_entries(*final(db), names@) == text_entries(*old(db), names@).insert(key, value@)
            &&& u32_entries(*final(db), ids@) == u32_entries(*old(db), ids@).remove(key)
            &&& u32_entries(*final(db), names@) == u32_entries(*old(db), names@)
            &&& text_entries(*final(db), ids@) == text_entries(*old(db), ids@)
            &&& table_exists(*final(db), ids@)
            &&& table_exists(*final(db), names@)
            &&& untouched_except(*old(db), *final(db), ids@, names@)
        },
        r is Err ==> {
            &&& untouched_except(*old(db), *final(db), ids@, names@)
            &&& same_entries(*old(db), *final(db), ids@, names@) || {
                &&& text_entries(*final(db), names@) == text_entries(*old(db), names@).insert(key, value@)
                &&& u32_entries(*final(db), ids@) == u32_entries(*old(db), ids@).remove(key)
                &&& u32_entries(*final(db), names@) == u32_entries(*old(db), names@)
                &&& text_entries(*final(db), ids@) == text_entries(*old(db), ids@)
            }
        },
{
    let txn = db.begin_write()?;
    txn.open_table(redb::TableDefinition::<u64, String>::new(names))?.insert(key, String::from(value))?;
    txn.open_table(redb::TableDefinition::<u64, u32>::new(ids))?.remove(key)?;
    txn.commit()?;
    Ok(())
}

/// A read transaction of redb that opens the `u64` to `u32` table `table`
/// and reads `key` with `ReadOnlyTable::get`. Opening a table that does not
/// exist fails; when the read succeeds it gives the table's entry.
#[verifier::external_body]
fn get_u32(db: &redb::Database, table: &str, key: u64) -> (r: Result<Option<u32>, redb::Error>)
    requires
        table@.len() > 0,
    ensures
        !table_exists(*db, table@) ==> r is Err,
        r matches Ok(v) ==> v == (if u32_entries(*db, table@).contains_key(key) {
            Some(u32_entries(*db, table@)[key])
        } else {
            None
        }),
{
    let txn = db.begin_read()?;
    let found = txn.open_table(redb::TableDefinition::<u64, u32>::new(table))?.get(key)?;
    Ok(found.map(|guard| guard.value()))
}

/// A read transaction of redb that opens the `u64` to text table `table`
/// and reads `key` with `ReadOnlyTable::get`. Opening a table that does not
/// exist fails; when the read succeeds it gives the table's entry.
#[verifier::external_body]
fn get_text(db: &redb::Database, table: &str, key: u64) -> (r: Result<Option<String>, redb::Error>)
    requires
        table@.len() > 0,
    ensures
        !table_exists(*db, table@) ==> r is Err,
        r matches Ok(v) ==> opt_view(v) == (if text_entries(*db, table@).contains_key(key) {
            Some(text_entries(*db, table@)[key])
        } else {
            None
        }),
{
    let txn = db.begin_read()?;
    let found = txn.open_table(redb::TableDefinition::<u64, String>::new(table))?.get(key)?;
    Ok(found.map(|guard| guard.value()))
}

/// A write transaction of redb that opens (creating them when missing) the
/// `u64` to `u32` table `ids` and the `u64` to text table `names`, removes
/// `key` from both with `Table::remove`, and commits. When it succeeds, it
/// tells for each table whether the key was there, the key is gone from
/// both and nothing else changed. A failure before the commit drops the
/// transaction, which redb rolls back; a transaction is atomic, so after
/// any failure the tables hold either what they held or the key is gone
/// from both, and the handle keeps its file.
#[verifier::external_body]
fn remove_from_both(db: &mut redb::Database, ids: &str, names: &str, key: u64) -> (r: Result<(bool, bool), redb::Error>)
    requires
        ids@.len() > 0,
        names@.len() > 0,
        ids@ != names@,
    ensures
        r matches Ok(found) ==> {
            &&& found.0 == u32_entries(*old(db), ids@).contains_key(key)
            &&& found.1 == text_entries(*old(db), names@).contains_key(key)
            &&& u32_entries(*final(db), ids@) == u32_entries(*old(db), ids@).remove(key)
            &&& text_entries(*final(db), names@) == text_entries(*old(db), names@).remove(key)
            &&& u32_entries(*final(db), names@) == u32_entries(*old(db), names@)
            &&& text_entries(*final(db), ids@) == text_entries(*old(db), ids@)
            &&& table_exists(*final(db), ids@)
            &&& table_exists(*final(db), names@)
            &&& untouched_except(*old(db), *final(db), ids@, names@)
        },
        r is Err ==> {
            &&& untouched_except(*old(db), *final(db), ids@, names@)
            &&& same_entries(*old(db), *final(db), ids@, names@) || {
                &&& u32_entries(*final(db), ids@) == u32_entries(*old(db), ids@).remove(key)
                &&& text_entries(*final(db), names@) == text_entries(*old(db), names@).remove(key)
                &&& u32_entries(*final(db), names@) == u32_entries(*old(db), names@)
                &&& text_entries(*final(db), ids@) == text_entries(*old(db), ids@)
            }
        },
{
    let txn = db.begin_write()?;
    let in_ids = txn.open_table(redb::TableDefinition::<u64, u32>::new(ids))?.remove(key)?.is_some();
    let in_names = txn.open_table(redb::TableDefinition::<u64, String>::new(names))?.remove(key)?.is_some();
    txn.commit()?;
    Ok((in_ids, in_names))
}

/// An osu! account: by user id or by user name.
pub enum UserId {
    Id(u32),
    Name(String),
}

/// The abstract value of an osu! account.
pub enum UserIdView {
    Id(u32),
    Name(Seq<char>),
}

impl View for UserId {
    type V = UserIdView;

    open spec fn view(&self) -> UserIdView {
        match self {
            UserId::Id(id) => UserIdView::Id(*id),
            UserId::Name(name) => UserIdView::Name(name@),
        }
    }
}

/// The view of an optional account.
pub open spec fn opt_user_view(o: Option<UserId>) -> Option<UserIdView> {
    match o {
        Some(u) => Some(u@),
        None => None,
    }
}

/// Why an operation on the linked accounts failed: the database failed.
pub enum UserDbError {
    Storage(redb::Error),
}

/// The name of the table of accounts linked by id.
pub open spec fn user_id_table() -> Seq<char> {
    "osu_users_by_id"@
}

/// The name of the table of accounts linked by name.
pub open spec fn user_name_table() -> Seq<char> {
    "osu_users_by_name"@
}

/// The account linked to a Discord user: the one linked by id when there is
/// one, else the one linked by name.
pub open spec fn linked_account(ids: Map<u64, u32>, names: Map<u64, Seq<char>>, discord_id: u64) -> Option<
    UserIdView,
> {
    if ids.contains_key(discord_id) {
        Some(UserIdView::Id(ids[discord_id]))
    } else if names.contains_key(discord_id) {
        Some(UserIdView::Name(names[discord_id]))
    } else {
        None
    }
}

/// The account read from the two tables: the one linked by id when there is
/// one, else the one linked by name.
pub fn linked_user_from(by_id: Option<u32>, by_name: Option<String>) -> (r: Option<UserId>)
    ensures
        opt_user_view(r) == match by_id {
            Some(id) => Some(UserIdView::Id(id)),
            None => match opt_view(by_name) {
                Some(name) => Some(UserIdView::Name(name)),
                None => None,
            },
        },
{
    match by_id {
        Some(id) => Some(UserId::Id(id)),
        None => match by_name {
            Some(name) => Some(UserId::Name(name)),
            None => None,
        },
    }
}

/// The two tables after linking account `u` to Discord user `d`: the link
/// goes to the table of its kind and the user's entry in the other table is
/// dropped.
pub open spec fn relinked(ids: Map<u64, u32>, names: Map<u64, Seq<char>>, d: u64, u: UserIdView) -> (
    Map<u64, u32>,
    Map<u64, Seq<char>>,
) {
    match u {
        UserIdView::Id(id) => (ids.insert(d, id), names.remove(d)),
        UserIdView::Name(name) => (ids.remove(d), names.insert(d, name)),
    }
}

/// The osu! accounts that Discord users linked, kept in a database file.
pub struct UserDb {
    db: redb::Database,
}

impl UserDb {
    /// The accounts linked by id, by Discord user id.
    pub closed spec fn ids(&self) -> Map<u64, u32> {
        u32_entries(self.db, user_id_table())
    }

    /// The accounts linked by name, by Discord user id.
    pub closed spec fn names(&self) -> Map<u64, Seq<char>> {
        text_entries(self.db, user_name_table())
    }

    /// Whether the table of accounts linked by id exists.
    pub closed spec fn has_id_table(&self) -> bool {
        table_exists(self.db, user_id_table())
    }

    /// Whether the table of accounts linked by name exists.
    pub closed spec fn has_name_table(&self) -> bool {
        table_exists(self.db, user_name_table())
    }

    /// The database file the accounts are kept in.
    pub closed spec fn file(&self) -> Seq<char> {
        database_file(self.db)
    }

    /// Opens (or creates) the database file at `file_path`, making sure that
    /// both tables of linked accounts exist.
    pub fn new(file_path: &str) -> (r: Result<Self, UserDbError>)
        ensures
            r matches Ok(db) ==> db.has_id_table() && db.has_name_table() && db.file() == file_path@,
    {
        proof {
            reveal_strlit("osu_users_by_id");
            reveal_strlit("osu_users_by_name");
        }
        match open_tables(file_path, "osu_users_by_id", "osu_users_by_name") {
            Ok(db) => Ok(UserDb { db }),
            Err(e) => Err(UserDbError::Storage(e)),
        }
    }

    /// Saves or updates the osu! account linked to a Discord user: an id goes
    /// to the table of ids, a name to the table of names, and the user's entry
    /// in the other table is removed in the same transaction, so that the
    /// account read back is the one just linked. The other users keep their
    /// links.
    pub fn set_user_id(&mut self, discord_id: u64, osu_id: UserId) -> (r: Result<(), UserDbError>)
        ensures
            r is Ok ==> {
                &&& match osu_id@ {
                    UserIdView::Id(id) => final(self).ids() == old(self).ids().insert(discord_id, id)
                        && final(self).names() == old(self).names().remove(discord_id),
                    UserIdView::Name(name) => final(self).names() == old(self).names().insert(
                        discord_id,
                        name,
                    ) && final(self).ids() == old(self).ids().remove(discord_id),
                }
                &&& linked_account(final(self).ids(), final(self).names(), discord_id) == Some(osu_id@)
                &&& forall|k: u64| k != discord_id ==> #[trigger] linked_account(
                    final(self).ids(),
                    final(self).names(),
                    k,
                ) == linked_account(old(self).ids(), old(self).names(), k)
                &&& final(self).has_id_table()
                &&& final(self).has_name_table()
                &&& final(self).file() == old(self).file()
            },
            r is Err ==> {
                &&& final(self).file() == old(self).file()
                &&& (final(self).ids(), final(self).names()) == (old(self).ids(), old(self).names())
                    || (final(self).ids(), final(self).names()) == relinked(
                    old(self).ids(),
                    old(self).names(),
                    discord_id,
                    osu_id@,
                )
            },
    {
        proof {
            reveal_strlit("osu_users_by_id");
            reveal_strlit("osu_users_by_name");
            assert(user_id_table().len() != user_name_table().len());
        }
        let ghost id_view = osu_id@;
        let done = match osu_id {
            UserId::Id(id) => link_in_ids(&mut self.db, "osu_users_by_id", "osu_users_by_name", discord_id, id),
            UserId::Name(name) => link_in_names(
                &mut self.db,
                "osu_users_by_id",
                "osu_users_by_name",
                discord_id,
                name.as_str(),
            ),
        };
        match done {
            Ok(()) => {
                proof {
                    assert(linked_account(self.ids(), self.names(), discord_id) == Some(id_view));
                }
                Ok(())
            },
            Err(e) => Err(UserDbError::Storage(e)),
        }
    }

    /// The account linked to a Discord user (`None` when there is none): the
    /// one linked by id first, else the one linked by name.
    pub fn get_user_id(&self, discord_id: u64) -> (r: Result<Option<UserId>, UserDbError>)
        ensures
            r matches Ok(found) ==> opt_user_view(found) == linked_account(
                self.ids(),
                self.names(),
                discord_id,
            ),
    {
        proof {
            reveal_strlit("osu_users_by_id");
            reveal_strlit("osu_users_by_name");
        }
        let by_id = match get_u32(&self.db, "osu_users_by_id", discord_id) {
            Ok(v) => v,
            Err(e) => {
                return Err(UserDbError::Storage(e));
            },
        };
        if by_id.is_some() {
            return Ok(linked_user_from(by_id, None));
        }
        match get_text(&self.db, "osu_users_by_name", discord_id) {
            Ok(by_name) => Ok(linked_user_from(by_id, by_name)),
            Err(e) => Err(UserDbError::Storage(e)),
        }
    }

    /// Unlinks a Discord user, from both tables; tells whether a link was
    /// there. The other users keep their links.
    pub fn remove_user_id(&mut self, discord_id: u64) -> (r: Result<bool, UserDbError>)
        ensures
            r matches Ok(removed) ==> {
                &&& removed == (old(self).ids().contains_key(discord_id) || old(self).names().contains_key(
                    discord_id,
                ))
                &&& removed == (linked_account(old(self).ids(), old(self).names(), discord_id) is Some)
                &&& final(self).ids() == old(self).ids().remove(discord_id)
                &&& final(self).names() == old(self).names().remove(discord_id)
                &&& linked_account(final(self).ids(), final(self).names(), discord_id) is None
                &&& forall|k: u64| k != discord_id ==> #[trigger] linked_account(
                    final(self).ids(),
                    final(self).names(),
                    k,
                ) == linked_account(old(self).ids(), old(self).names(), k)
                &&& final(self).has_id_table()
                &&& final(self).has_name_table()
                &&& final(self).file() == old(self).file()
            },
            r is Err ==> {
                &&& final(self).file() == old(self).file()
                &&& (final(self).ids(), final(self).names()) == (old(self).ids(), old(self).names())
                    || (final(self).ids(), final(self).names()) == (
                    old(self).ids().remove(discord_id),
                    old(self).names().remove(discord_id),
                )
            },
    {
        proof {
            reveal_strlit("osu_users_by_id");
            reveal_strlit("osu_users_by_name");
            assert(user_id_table().len() != user_name_table().len());
        }
        match remove_from_both(&mut self.db, "osu_users_by_id", "osu_users_by_name", discord_id) {
            Ok(found) => Ok(found.0 || found.1),
            Err(e) => Err(UserDbError::Storage(e)),
        }
    }
}

/// Scanning a channel's messages (newest first) gives the link that
/// `map_url_from_msg` finds in the first message carrying one, reading each
/// message's content and embeds; no link exactly when no message carries
/// one.
pub proof fn lemma_scan_finds_first_message_link(msgs: Seq<MessageText>)
    ensures
        first_message_link(msgs) is None <==> forall|i: int|
            0 <= i < msgs.len() ==> map_url_spec(
                (#[trigger] msgs[i]).content@,
                embed_views(msgs[i].embeds@),
            ) is None,
        first_message_link(msgs) matches Some(l) ==> exists|i: int|
            0 <= i < msgs.len() && map_url_spec((#[trigger] msgs[i]).content@, embed_views(msgs[i].embeds@))
                == Some(l) && forall|j: int|
                0 <= j < i ==> map_url_spec((#[trigger] msgs[j]).content@, embed_views(msgs[j].embeds@))
                    is None,
    decreases msgs.len(),
{
    if msgs.len() > 0 {
        let rest = msgs.drop_first();
        lemma_scan_finds_first_message_link(rest);
        assert forall|i: int| 0 <= i < rest.len() implies rest[i] == msgs[i + 1] by {}
        if map_url_spec(msgs[0].content@, embed_views(msgs[0].embeds@)) is Some {
            assert(first_message_link(msgs) == map_url_spec(msgs[0].content@, embed_views(msgs[0].embeds@)));
        } else {
            if first_message_link(rest) is None {
                assert forall|i: int| 0 <= i < msgs.len() implies map_url_spec(
                    (#[trigger] msgs[i]).content@,
                    embed_views(msgs[i].embeds@),
                ) is None by {
                    if i > 0 {
                        assert(msgs[i] == rest[i - 1]);
                    }
                }
            } else {
                let l = first_message_link(rest)->0;
                let i = choose|i: int|
                    0 <= i < rest.len() && map_url_spec((#[trigger] rest[i]).content@, embed_views(rest[i].embeds@))
                        == Some(l) && forall|j: int|
                        0 <= j < i ==> map_url_spec((#[trigger] rest[j]).content@, embed_views(rest[j].embeds@))
                            is None;
                assert(msgs[i + 1] == rest[i]);
                assert forall|j: int| 0 <= j < i + 1 implies map_url_spec(
                    (#[trigger] msgs[j]).content@,
                    embed_views(msgs[j].embeds@),
                ) is None by {
                    if j > 0 {
                        assert(msgs[j] == rest[j - 1]);
                    }
                }
            }
        }
    }
}

/// The link recorded for a channel is the one the channel then gives back,
/// and the other channels keep theirs.
pub proof fn lemma_recorded_link_is_known(
    before: ChannelMapDb,
    after: ChannelMapDb,
    channel_id: u64,
    map_url: String,
)
    requires
        after.links() == before.links().insert(channel_id, map_url),
    ensures
        after.links().contains_key(channel_id),
        after.links()[channel_id] == map_url,
        forall|c: u64| c != channel_id && before.links().contains_key(c) ==> after.links().contains_key(c)
            && #[trigger] after.links()[c] == before.links()[c],
{
}

/// One later step on the channel store that leaves channel `c` alone: a
/// lookup or a scan (the links stay as they were) or a link recorded for
/// another channel.
#[verifier::opaque]
pub open spec fn leaves_channel(before: ChannelMapDb, after: ChannelMapDb, c: u64) -> bool {
    ||| after.links() == before.links()
    ||| exists|other: u64, url: String|
        other != c && after.links() == #[trigger] before.links().insert(other, url)
}

/// A step that leaves a channel alone keeps its link.
proof fn lemma_step_keeps_link(before: ChannelMapDb, after: ChannelMapDb, channel_id: u64, map_url: String)
    requires
        leaves_channel(before, after, channel_id),
        before.links().contains_key(channel_id),
        before.links()[channel_id] == map_url,
    ensures
        after.links().contains_key(channel_id),
        after.links()[channel_id] == map_url,
{
    reveal(leaves_channel);
    if after.links() != before.links() {
        let (other, url) = choose|other: u64, url: String|
            other != channel_id && after.links() == #[trigger] before.links().insert(other, url);
        assert(after.links()[channel_id] == before.links()[channel_id]);
    }
}

/// The link is still there at step `i`.
proof fn lemma_link_kept_upto(states: Seq<ChannelMapDb>, channel_id: u64, map_url: String, i: int)
    requires
        0 <= i < states.len(),
        states[0].links().contains_key(channel_id),
        states[0].links()[channel_id] == map_url,
        forall|k: int| 0 <= k < states.len() - 1 ==> leaves_channel(#[trigger] states[k], states[k + 1], channel_id),
    ensures
        states[i].links().contains_key(channel_id),
        states[i].links()[channel_id] == map_url,
    decreases i,
{
    if i > 0 {
        lemma_link_kept_upto(states, channel_id, map_url, i - 1);
        assert(leaves_channel(states[i - 1], states[i - 1 + 1], channel_id));
        lemma_step_keeps_link(states[i - 1], states[i], channel_id, map_url);
    }
}

/// A link recorded for a channel is still the one it gives back after any
/// sequence of later lookups, scans and links recorded for other channels.
pub proof fn lemma_link_survives_later_steps(states: Seq<ChannelMapDb>, channel_id: u64, map_url: String)
    requires
        states.len() > 0,
        states[0].links().contains_key(channel_id),
        states[0].links()[channel_id] == map_url,
        forall|i: int| 0 <= i < states.len() - 1 ==> leaves_channel(#[trigger] states[i], states[i + 1], channel_id),
    ensures
        forall|i: int| 0 <= i < states.len() ==> (#[trigger] states[i]).links().contains_key(channel_id)
            && states[i].links()[channel_id] == map_url,
{
    assert forall|i: int| 0 <= i < states.len() implies (#[trigger] states[i]).links().contains_key(channel_id)
        && states[i].links()[channel_id] == map_url by {
        lemma_link_kept_upto(states, channel_id, map_url, i);
    }
}

/// Recording a link never moves the oldest read message of a channel that
/// has one.
pub proof fn lemma_checked_message_kept(
    before: ChannelMapDb,
    after: ChannelMapDb,
    channel_id: u64,
    msg_id: Option<u64>,
)
    requires
        after.checked() == if !before.checked().contains_key(channel_id) && msg_id is Some {
            before.checked().insert(channel_id, msg_id->0)
        } else {
            before.checked()
        },
    ensures
        forall|c: u64| #[trigger] before.checked().contains_key(c) ==> after.checked().contains_key(c)
            && after.checked()[c] == before.checked()[c],
{
}

/// Linking an account by id: it is the account then read back (the
/// user's link by name is dropped), and the other users keep their links.
pub proof fn lemma_linked_id_read_back(ids: Map<u64, u32>, names: Map<u64, Seq<char>>, discord_id: u64, id: u32)
    ensures
        linked_account(ids.insert(discord_id, id), names.remove(discord_id), discord_id) == Some(
            UserIdView::Id(id),
        ),
        forall|k: u64| k != discord_id ==> #[trigger] linked_account(
            ids.insert(discord_id, id),
            names.remove(discord_id),
            k,
        ) == linked_account(ids, names, k),
{
}

/// Linking an account by name: it is the account then read back (the
/// user's link by id is dropped), and the other users keep their links.
pub proof fn lemma_linked_name_read_back(
    ids: Map<u64, u32>,
    names: Map<u64, Seq<char>>,
    discord_id: u64,
    name: Seq<char>,
)
    ensures
        linked_account(ids.remove(discord_id), names.insert(discord_id, name), discord_id) == Some(
            UserIdView::Name(name),
        ),
        forall|k: u64| k != discord_id ==> #[trigger] linked_account(
            ids.remove(discord_id),
            names.insert(discord_id, name),
            k,
        ) == linked_account(ids, names, k),
{
}

/// After unlinking, no account is read back for the user, and the other
/// users keep their links.
pub proof fn lemma_unlinked_reads_none(ids: Map<u64, u32>, names: Map<u64, Seq<char>>, discord_id: u64)
    ensures
        linked_account(ids.remove(discord_id), names.remove(discord_id), discord_id) is None,
        forall|k: u64| k != discord_id ==> #[trigger] linked_account(
            ids.remove(discord_id),
            names.remove(discord_id),
            k,
        ) == linked_account(ids, names, k),
{
}

/// Unlinking a user a second time finds no link and changes nothing.
pub proof fn lemma_second_unlink_changes_nothing(ids: Map<u64, u32>, names: Map<u64, Seq<char>>, discord_id: u64)
    ensures
        !(ids.remove(discord_id).contains_key(discord_id) || names.remove(discord_id).contains_key(
            discord_id,
        )),
        ids.remove(discord_id).remove(discord_id) == ids.remove(discord_id),
        names.remove(discord_id).remove(discord_id) == names.remove(discord_id),
{
    assert(ids.remove(discord_id).remove(discord_id) =~= ids.remove(discord_id));
    assert(names.remove(discord_id).remove(discord_id) =~= names.remove(discord_id));
}

} // verus!
