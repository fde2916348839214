//! MongoDB connection URIs.

use vstd::prelude::*;
use crate::mapping::{build_recommendations, recommendations};
use crate::model::{
    binding, empty_permission_summary, exposure, no_views, push_view, views, AccessMapResult,
    AccessMapResultView, AccessSummary, AccessSummaryView, PermissionSummary,
    PermissionSummaryView, ProviderMetadata, ProviderMetadataView, ResourceExposure,
    ResourceExposureView, RoleBinding, RoleBindingView, Severity,
};
use crate::permissions::{
    class_list, file_permission, filed, lemma_filed, lemma_sorted_classes_stay_filled,
    lemma_sorted_summary, sort_permission_summary, sorted_summary, PermissionClass,
};
use crate::text::{
    cat2, cat3, cat4, contains, extend_texts, holds, i64_text, is_one_of, lowered, no_texts,
    opt_text, push_text, signed_decimal, slices, stands_at, str_eq, text_else, texts,
    to_lowercase,
};

verus! {

/// A BSON value, as far as it is looked at. A floating-point number is held as the integer that it
/// comes to when its fraction is cut off.
#[derive(Debug)]
pub enum BsonValue {
    Text(String),
    Int64(i64),
    Double(i64),
    Array(Vec<BsonValue>),
    Document(Vec<(String, BsonValue)>),
    Other,
}

/// The position of the first field named `key` at or after `i`.
pub open spec fn field_at(fields: Seq<(String, BsonValue)>, key: Seq<char>, i: int) -> Option<int>
    decreases fields.len() - i,
{
    if i < 0 || i >= fields.len() {
        None
    } else if fields[i].0@ == key {
        Some(i)
    } else {
        field_at(fields, key, i + 1)
    }
}

/// The value of a field of a document.
pub open spec fn field(value: BsonValue, key: Seq<char>) -> Option<BsonValue> {
    match value {
        BsonValue::Document(fields) => match field_at(fields@, key, 0) {
            Some(k) => Some(fields@[k].1),
            None => None,
        },
        _ => None,
    }
}

/// The text that a value is.
pub open spec fn text_of(value: Option<BsonValue>) -> Option<Seq<char>> {
    match value {
        Some(BsonValue::Text(text)) => Some(text@),
        _ => None,
    }
}

/// The items of the array that a value is, or none.
pub open spec fn items_of(value: Option<BsonValue>) -> Seq<BsonValue> {
    match value {
        Some(BsonValue::Array(list)) => list@,
        _ => Seq::empty(),
    }
}

/// What a reference points to.
pub open spec fn held(value: Option<&BsonValue>) -> Option<BsonValue> {
    match value {
        Some(item) => Some(*item),
        None => None,
    }
}

impl BsonValue {
    pub fn get(&self, key: &str) -> (value: Option<&BsonValue>)
        ensures
            held(value) == field(*self, key@),
    {
        match self {
            BsonValue::Document(fields) => {
                let mut i: usize = 0;
                while i < fields.len()
                    invariant
                        i <= fields@.len(),
                        *self == BsonValue::Document(*fields),
                        field_at(fields@, key@, 0) == field_at(fields@, key@, i as int),
                    decreases fields@.len() - i,
                {
                    if str_eq(fields[i].0.as_str(), key) {
                        return Some(&fields[i].1);
                    }
                    i = i + 1;
                }
                None
            },
            _ => None,
        }
    }

    pub fn get_str(&self, key: &str) -> (text: Option<String>)
        ensures
            opt_text(text) == text_of(field(*self, key@)),
    {
        match self.get(key) {
            Some(BsonValue::Text(text)) => Some(text.clone()),
            _ => None,
        }
    }

    pub fn get_array(&self, key: &str) -> (list: Option<&Vec<BsonValue>>)
        ensures
            match list {
                Some(items) => items@ == items_of(field(*self, key@)),
                None => items_of(field(*self, key@)) == Seq::<BsonValue>::empty(),
            },
    {
        match self.get(key) {
            Some(BsonValue::Array(list)) => Some(list),
            _ => None,
        }
    }
}

/// A role of a user.
#[derive(Debug)]
pub struct MongoRole {
    pub role: String,
    pub db: String,
}

/// What a `MongoRole` says.
#[verifier::ext_equal]
pub struct MongoRoleView {
    pub role: Seq<char>,
    pub db: Seq<char>,
}

impl View for MongoRole {
    type V = MongoRoleView;

    open spec fn view(&self) -> MongoRoleView {
        MongoRoleView { role: self.role@, db: self.db@ }
    }
}

/// A privilege of a user: actions on a resource. An empty name stands for every resource.
#[derive(Debug)]
pub struct MongoPrivilege {
    pub resource_db: Option<String>,
    pub resource_collection: Option<String>,
    pub actions: Vec<String>,
}

/// What a `MongoPrivilege` says.
#[verifier::ext_equal]
pub struct MongoPrivilegeView {
    pub resource_db: Option<Seq<char>>,
    pub resource_collection: Option<Seq<char>>,
    pub actions: Seq<Seq<char>>,
}

impl View for MongoPrivilege {
    type V = MongoPrivilegeView;

    open spec fn view(&self) -> MongoPrivilegeView {
        MongoPrivilegeView {
            resource_db: opt_text(self.resource_db),
            resource_collection: opt_text(self.resource_collection),
            actions: texts(self.actions@),
        }
    }
}

/// A database.
#[derive(Debug)]
pub struct DatabaseInfo {
    pub name: String,
    pub size_on_disk: Option<i64>,
}

/// What a `DatabaseInfo` says.
#[verifier::ext_equal]
pub struct DatabaseInfoView {
    pub name: Seq<char>,
    pub size_on_disk: Option<i64>,
}

impl View for DatabaseInfo {
    type V = DatabaseInfoView;

    open spec fn view(&self) -> DatabaseInfoView {
        DatabaseInfoView { name: self.name@, size_on_disk: self.size_on_disk }
    }
}

/// A collection.
#[derive(Debug)]
pub struct CollectionInfo {
    pub database: String,
    pub name: String,
    pub collection_type: String,
    pub size_bytes: Option<i64>,
}

/// What a `CollectionInfo` says.
#[verifier::ext_equal]
pub struct CollectionInfoView {
    pub database: Seq<char>,
    pub name: Seq<char>,
    pub collection_type: Seq<char>,
    pub size_bytes: Option<i64>,
}

impl View for CollectionInfo {
    type V = CollectionInfoView;

    open spec fn view(&self) -> CollectionInfoView {
        CollectionInfoView {
            database: self.database@,
            name: self.name@,
            collection_type: self.collection_type@,
            size_bytes: self.size_bytes,
        }
    }
}

/// Who is connected and what that user may do.
#[derive(Debug)]
pub struct ConnectionStatus {
    pub username: String,
    pub auth_db: String,
    pub roles: Vec<MongoRole>,
    pub privileges: Vec<MongoPrivilege>,
}

/// What a `ConnectionStatus` says.
#[verifier::ext_equal]
pub struct ConnectionStatusView {
    pub username: Seq<char>,
    pub auth_db: Seq<char>,
    pub roles: Seq<MongoRoleView>,
    pub privileges: Seq<MongoPrivilegeView>,
}

impl View for ConnectionStatus {
    type V = ConnectionStatusView;

    open spec fn view(&self) -> ConnectionStatusView {
        ConnectionStatusView {
            username: self.username@,
            auth_db: self.auth_db@,
            roles: views(self.roles@),
            privileges: views(self.privileges@),
        }
    }
}

/// The list under a key of the authentication part of a status.
pub open spec fn auth_list(status: BsonValue, key: Seq<char>) -> Seq<BsonValue> {
    match field(status, "authInfo"@) {
        Some(info) => items_of(field(info, key)),
        None => Seq::empty(),
    }
}

/// The user and its database, where the first of the users names both.
pub open spec fn first_user(users: Seq<BsonValue>) -> (Seq<char>, Seq<char>) {
    if users.len() > 0 && text_of(field(users[0], "user"@)) is Some && text_of(
        field(users[0], "db"@),
    ) is Some {
        (text_of(field(users[0], "user"@))->0, text_of(field(users[0], "db"@))->0)
    } else {
        (Seq::empty(), Seq::empty())
    }
}

/// The roles among the first `n` items that name both a role and a database.
pub open spec fn roles_upto(list: Seq<BsonValue>, n: int) -> Seq<MongoRoleView>
    decreases n,
{
    if n <= 0 {
        Seq::empty()
    } else {
        let role = text_of(field(list[n - 1], "role"@));
        let db = text_of(field(list[n - 1], "db"@));
        if role is Some && db is Some {
            roles_upto(list, n - 1).push(MongoRoleView { role: role->0, db: db->0 })
        } else {
            roles_upto(list, n - 1)
        }
    }
}

/// The texts among the first `n` items.
pub open spec fn texts_upto(list: Seq<BsonValue>, n: int) -> Seq<Seq<char>>
    decreases n,
{
    if n <= 0 {
        Seq::empty()
    } else {
        match list[n - 1] {
            BsonValue::Text(text) => texts_upto(list, n - 1).push(text@),
            _ => texts_upto(list, n - 1),
        }
    }
}

/// The privilege that an item describes: one with a resource and a list of actions.
pub open spec fn privilege_in(item: BsonValue) -> Option<MongoPrivilegeView> {
    match (field(item, "resource"@), field(item, "actions"@)) {
        (Some(BsonValue::Document(resource)), Some(BsonValue::Array(actions))) => Some(
            MongoPrivilegeView {
                resource_db: text_of(field(BsonValue::Document(resource), "db"@)),
                resource_collection: text_of(field(BsonValue::Document(resource), "collection"@)),
                actions: texts_upto(actions@, actions@.len() as int),
            },
        ),
        _ => None,
    }
}

/// The privileges among the first `n` items.
pub open spec fn privileges_upto(list: Seq<BsonValue>, n: int) -> Seq<MongoPrivilegeView>
    decreases n,
{
    if n <= 0 {
        Seq::empty()
    } else {
        match privilege_in(list[n - 1]) {
            Some(privilege) => privileges_upto(list, n - 1).push(privilege),
            None => privileges_upto(list, n - 1),
        }
    }
}

/// What a `connectionStatus` document says.
pub open spec fn status_of(document: BsonValue) -> ConnectionStatusView {
    let user = first_user(auth_list(document, "authenticatedUsers"@));
    let roles = auth_list(document, "authenticatedUserRoles"@);
    let privileges = auth_list(document, "authenticatedUserPrivileges"@);
    ConnectionStatusView {
        username: user.0,
        auth_db: user.1,
        roles: roles_upto(roles, roles.len() as int),
        privileges: privileges_upto(privileges, privileges.len() as int),
    }
}

fn read_user(users: &Vec<BsonValue>) -> (user: (String, String))
    ensures
        (user.0@, user.1@) == first_user(users@),
{
    if users.len() > 0 {
        match (users[0].get_str("user"), users[0].get_str("db")) {
            (Some(name), Some(db)) => {
                return (name, db);
            },
            _ => {},
        }
    }
    let user = (String::new(), String::new());
    assert(user.0@ =~= Seq::<char>::empty());
    assert(user.1@ =~= Seq::<char>::empty());
    user
}

fn read_roles(list: &Vec<BsonValue>) -> (roles: Vec<MongoRole>)
    ensures
        views(roles@) == roles_upto(list@, list@.len() as int),
{
    let mut roles: Vec<MongoRole> = no_views();
    let mut i: usize = 0;
    while i < list.len()
        invariant
            i <= list@.len(),
            views(roles@) == roles_upto(list@, i as int),
        decreases list@.len() - i,
    {
        match (list[i].get_str("role"), list[i].get_str("db")) {
            (Some(role), Some(db)) => push_view(&mut roles, MongoRole { role, db }),
            _ => {},
        }
        i = i + 1;
    }
    roles
}

fn read_texts(list: &Vec<BsonValue>) -> (found: Vec<String>)
    ensures
        texts(found@) == texts_upto(list@, list@.len() as int),
{
    let mut found = no_texts();
    let mut i: usize = 0;
    while i < list.len()
        invariant
            i <= list@.len(),
            texts(found@) == texts_upto(list@, i as int),
        decreases list@.len() - i,
    {
        match &list[i] {
            BsonValue::Text(text) => push_text(&mut found, text.clone()),
            _ => {},
        }
        i = i + 1;
    }
    found
}

fn read_privilege(item: &BsonValue) -> (privilege: Option<MongoPrivilege>)
    ensures
        crate::model::opt_view(privilege) == privilege_in(*item),
{
    match (item.get("resource"), item.get("actions")) {
        (Some(resource), Some(BsonValue::Array(actions))) => match resource {
            BsonValue::Document(_) => Some(
                MongoPrivilege {
                    resource_db: resource.get_str("db"),
                    resource_collection: resource.get_str("collection"),
                    actions: read_texts(actions),
                },
            ),
            _ => None,
        },
        _ => None,
    }
}

fn read_privileges(list: &Vec<BsonValue>) -> (privileges: Vec<MongoPrivilege>)
    ensures
        views(privileges@) == privileges_upto(list@, list@.len() as int),
{
    let mut privileges: Vec<MongoPrivilege> = no_views();
    let mut i: usize = 0;
    while i < list.len()
        invariant
            i <= list@.len(),
            views(privileges@) == privileges_upto(list@, i as int),
        decreases list@.len() - i,
    {
        match read_privilege(&list[i]) {
            Some(privilege) => push_view(&mut privileges, privilege),
            None => {},
        }
        i = i + 1;
    }
    privileges
}

pub fn parse_connection_status(document: &BsonValue) -> (status: ConnectionStatus)
    ensures
        status@ == status_of(*document),
{
    let none: Vec<BsonValue> = Vec::new();
    let mut users: &Vec<BsonValue> = &none;
    let mut roles: &Vec<BsonValue> = &none;
    let mut privileges: &Vec<BsonValue> = &none;
    match document.get("authInfo") {
        Some(info) => {
            match info.get_array("authenticatedUsers") {
                Some(list) => {
                    users = list;
                },
                None => {},
            }
            match info.get_array("authenticatedUserRoles") {
                Some(list) => {
                    roles = list;
                },
                None => {},
            }
            match info.get_array("authenticatedUserPrivileges") {
                Some(list) => {
                    privileges = list;
                },
                None => {},
            }
        },
        None => {},
    }
    assert(users@ =~= auth_list(*document, "authenticatedUsers"@));
    assert(roles@ =~= auth_list(*document, "authenticatedUserRoles"@));
    assert(privileges@ =~= auth_list(*document, "authenticatedUserPrivileges"@));
    let (username, auth_db) = read_user(users);
    ConnectionStatus {
        username,
        auth_db,
        roles: read_roles(roles),
        privileges: read_privileges(privileges),
    }
}

/// The number that a value is, whole or not.
pub open spec fn size_of(value: Option<BsonValue>) -> Option<i64> {
    match value {
        Some(BsonValue::Int64(n)) => Some(n),
        Some(BsonValue::Double(n)) => Some(n),
        _ => None,
    }
}

/// The databases among the first `n` items: those with a name.
pub open spec fn databases_upto(list: Seq<BsonValue>, n: int) -> Seq<DatabaseInfoView>
    decreases n,
{
    if n <= 0 {
        Seq::empty()
    } else {
        match text_of(field(list[n - 1], "name"@)) {
            Some(name) => databases_upto(list, n - 1).push(
                DatabaseInfoView { name, size_on_disk: size_of(field(list[n - 1], "sizeOnDisk"@)) },
            ),
            None => databases_upto(list, n - 1),
        }
    }
}

/// The databases that a `listDatabases` document lists.
pub open spec fn databases_in(document: BsonValue) -> Seq<DatabaseInfoView> {
    let list = items_of(field(document, "databases"@));
    databases_upto(list, list.len() as int)
}

pub fn parse_database_list(document: &BsonValue) -> (databases: Vec<DatabaseInfo>)
    ensures
        views(databases@) == databases_in(*document),
{
    let mut databases: Vec<DatabaseInfo> = no_views();
    match document.get_array("databases") {
        Some(list) => {
            let mut i: usize = 0;
            while i < list.len()
                invariant
                    i <= list@.len(),
                    views(databases@) == databases_upto(list@, i as int),
                decreases list@.len() - i,
            {
                match list[i].get_str("name") {
                    Some(name) => {
                        let size_on_disk: Option<i64> = match list[i].get("sizeOnDisk") {
                            Some(BsonValue::Int64(n)) => Some(*n),
                            Some(BsonValue::Double(n)) => Some(*n),
                            _ => None,
                        };
                        push_view(&mut databases, DatabaseInfo { name, size_on_disk });
                    },
                    None => {},
                }
                i = i + 1;
            }
        },
        None => {},
    }
    databases
}

/// The whole number under a key of the document under another.
pub open spec fn info_size(item: BsonValue) -> Option<i64> {
    match field(item, "info"@) {
        Some(info) => match field(info, "size"@) {
            Some(BsonValue::Int64(n)) => Some(n),
            _ => None,
        },
        None => None,
    }
}

/// The collections among the first `n` items: those that are documents.
pub open spec fn collections_upto(list: Seq<BsonValue>, n: int, database: Seq<char>) -> Seq<
    CollectionInfoView,
>
    decreases n,
{
    if n <= 0 {
        Seq::empty()
    } else if list[n - 1] is Document {
        collections_upto(list, n - 1, database).push(
            CollectionInfoView {
                database,
                name: text_else(text_of(field(list[n - 1], "name"@)), "unknown"@),
                collection_type: text_else(
                    text_of(field(list[n - 1], "type"@)),
                    "collection"@,
                ),
                size_bytes: info_size(list[n - 1]),
            },
        )
    } else {
        collections_upto(list, n - 1, database)
    }
}

/// The collections that a `listCollections` document lists.
pub open spec fn collections_in(document: BsonValue, database: Seq<char>) -> Seq<CollectionInfoView> {
    match field(document, "cursor"@) {
        Some(cursor) => {
            let list = items_of(field(cursor, "firstBatch"@));
            collections_upto(list, list.len() as int, database)
        },
        None => Seq::empty(),
    }
}

fn read_collection(item: &BsonValue, database: &str) -> (collection: CollectionInfo)
    ensures
        collection@ == (CollectionInfoView {
            database: database@,
            name: text_else(text_of(field(*item, "name"@)), "unknown"@),
            collection_type: text_else(text_of(field(*item, "type"@)), "collection"@),
            size_bytes: info_size(*item),
        }),
{
    let name = match item.get_str("name") {
        Some(name) => name,
        None => "unknown".to_owned(),
    };
    let collection_type = match item.get_str("type") {
        Some(kind) => kind,
        None => "collection".to_owned(),
    };
    let size_bytes: Option<i64> = match item.get("info") {
        Some(info) => match info.get("size") {
            Some(BsonValue::Int64(n)) => Some(*n),
            _ => None,
        },
        None => None,
    };
    CollectionInfo { database: database.to_owned(), name, collection_type, size_bytes }
}

/// Adds the collections that a `listCollections` document lists.
pub fn list_collections(document: &BsonValue, database: &str, collections: &mut Vec<CollectionInfo>)
    ensures
        views(final(collections)@) == views(old(collections)@) + collections_in(
            *document,
            database@,
        ),
{
    let ghost before = views(collections@);
    assert(before =~= before + Seq::<CollectionInfoView>::empty());
    match document.get("cursor") {
        Some(cursor) => match cursor.get_array("firstBatch") {
            Some(list) => {
                let mut i: usize = 0;
                while i < list.len()
                    invariant
                        i <= list@.len(),
                        views(collections@) == before + collections_upto(
                            list@,
                            i as int,
                            database@,
                        ),
                    decreases list@.len() - i,
                {
                    match &list[i] {
                        BsonValue::Document(_) => push_view(
                            collections,
                            read_collection(&list[i], database),
                        ),
                        _ => {},
                    }
                    i = i + 1;
                    assert(views(collections@) =~= before + collections_upto(
                        list@,
                        i as int,
                        database@,
                    ));
                }
            },
            None => {},
        },
        None => {},
    }
}

/// The collections of the first `n` databases. What could not be listed counts for nothing.
pub open spec fn all_collections(
    databases: Seq<DatabaseInfoView>,
    listings: Seq<Result<BsonValue, String>>,
    n: int,
) -> Seq<CollectionInfoView>
    decreases n,
{
    if n <= 0 {
        Seq::empty()
    } else if n - 1 < listings.len() {
        match listings[n - 1] {
            Ok(document) => all_collections(databases, listings, n - 1) + collections_in(
                document,
                databases[n - 1].name,
            ),
            Err(_) => all_collections(databases, listings, n - 1),
        }
    } else {
        all_collections(databases, listings, n - 1)
    }
}

/// The actions of an administrator.
pub open spec fn admin_actions() -> Seq<Seq<char>> {
    seq![
        "shutdown"@,
        "replsetstatechange"@,
        "resync"@,
        "applicationmessage"@,
        "closeallsessions"@,
        "forceuniverserecovery"@,
        "internal"@,
        "hostinfo"@,
    ]
}

/// Whether an action is that of an administrator.
pub open spec fn administers(action: Seq<char>) -> bool {
    admin_actions().contains(action) || holds(action, "adm"@) || action == "root"@
}

pub fn is_admin_action(action: &str) -> (yes: bool)
    ensures
        yes == administers(action@),
{
    let list: [&str; 8] = [
        "shutdown",
        "replsetstatechange",
        "resync",
        "applicationmessage",
        "closeallsessions",
        "forceuniverserecovery",
        "internal",
        "hostinfo",
    ];
    assert(slices(list@) =~= admin_actions());
    is_one_of(&list, action) || contains(action, "adm") || str_eq(action, "root")
}

/// The actions with which a user can change what users may do.
pub open spec fn escalation_actions() -> Seq<Seq<char>> {
    seq![
        "createrole"@,
        "createuser"@,
        "droprole"@,
        "dropuser"@,
        "grantrole"@,
        "revokerole"@,
        "grantrolestouser"@,
        "revokerolesfrommuser"@,
        "updateuser"@,
    ]
}

pub fn is_privilege_escalation_action(action: &str) -> (yes: bool)
    ensures
        yes == escalation_actions().contains(action@),
{
    let list: [&str; 9] = [
        "createrole",
        "createuser",
        "droprole",
        "dropuser",
        "grantrole",
        "revokerole",
        "grantrolestouser",
        "revokerolesfrommuser",
        "updateuser",
    ];
    assert(slices(list@) =~= escalation_actions());
    is_one_of(&list, action)
}

/// The actions that only read.
pub open spec fn read_actions() -> Seq<Seq<char>> {
    seq![
        "find"@,
        "listdatabases"@,
        "listcollections"@,
        "listindexes"@,
        "collstats"@,
        "dbstats"@,
        "connpoolstats"@,
        "serverstatus"@,
        "toploogy"@,
        "getcmdlineopts"@,
        "getlog"@,
        "getparameter"@,
        "indexstats"@,
        "top"@,
        "validate"@,
        "dbhash"@,
    ]
}

pub fn is_read_only_action(action: &str) -> (yes: bool)
    ensures
        yes == read_actions().contains(action@),
{
    let list: [&str; 16] = [
        "find",
        "listdatabases",
        "listcollections",
        "listindexes",
        "collstats",
        "dbstats",
        "connpoolstats",
        "serverstatus",
        "toploogy",
        "getcmdlineopts",
        "getlog",
        "getparameter",
        "indexstats",
        "top",
        "validate",
        "dbhash",
    ];
    assert(slices(list@) =~= read_actions());
    is_one_of(&list, action)
}

/// The actions that write.
pub open spec fn write_actions() -> Seq<Seq<char>> {
    seq![
        "insert"@,
        "update"@,
        "remove"@,
        "createcollection"@,
        "dropcollection"@,
        "dropdatabase"@,
        "createindex"@,
        "dropindex"@,
        "converttorecapped"@,
        "renamecollectionsamedatabase"@,
    ]
}

pub fn is_write_action(action: &str) -> (yes: bool)
    ensures
        yes == write_actions().contains(action@),
{
    let list: [&str; 10] = [
        "insert",
        "update",
        "remove",
        "createcollection",
        "dropcollection",
        "dropdatabase",
        "createindex",
        "dropindex",
        "converttorecapped",
        "renamecollectionsamedatabase",
    ];
    assert(slices(list@) =~= write_actions());
    is_one_of(&list, action)
}

/// The other actions that are known to be risky.
pub open spec fn sharding_actions() -> Seq<Seq<char>> {
    seq!["bypassdocumentvalidation"@, "enablesharding"@, "movechunk"@, "splitchunk"@]
}

pub fn is_risky_action(action: &str) -> (yes: bool)
    ensures
        yes == (write_actions().contains(action@) || sharding_actions().contains(action@)),
{
    let list: [&str; 4] = ["bypassdocumentvalidation", "enablesharding", "movechunk", "splitchunk"];
    assert(slices(list@) =~= sharding_actions());
    is_write_action(action) || is_one_of(&list, action)
}

/// The class of an action, whatever its case. One that is not known counts as risky.
pub open spec fn action_class(action: Seq<char>) -> PermissionClass {
    let name = lowered(action);
    if administers(name) {
        PermissionClass::Admin
    } else if escalation_actions().contains(name) {
        PermissionClass::PrivilegeEscalation
    } else if read_actions().contains(name) {
        PermissionClass::ReadOnly
    } else {
        PermissionClass::Risky
    }
}

fn classify_action(action: &str) -> (class: PermissionClass)
    ensures
        class == action_class(action@),
{
    let name = to_lowercase(action);
    if is_admin_action(name.as_str()) {
        PermissionClass::Admin
    } else if is_privilege_escalation_action(name.as_str()) {
        PermissionClass::PrivilegeEscalation
    } else if is_read_only_action(name.as_str()) {
        PermissionClass::ReadOnly
    } else {
        PermissionClass::Risky
    }
}

/// The summary with the first `n` of the actions.
pub open spec fn with_actions(summary: PermissionSummaryView, actions: Seq<Seq<char>>, n: int) -> PermissionSummaryView
    decreases n,
{
    if n <= 0 {
        summary
    } else {
        filed(
            with_actions(summary, actions, n - 1),
            action_class(actions[n - 1]),
            actions[n - 1],
        )
    }
}

/// Whether a privilege covers a database.
pub open spec fn covers_database(privilege: MongoPrivilegeView, db: Seq<char>) -> bool {
    privilege.resource_db == Some(db) || privilege.resource_db == Some(""@)
}

/// Whether a privilege covers a collection, wherever it is.
pub open spec fn covers_collection(privilege: MongoPrivilegeView, name: Seq<char>) -> bool {
    privilege.resource_collection == Some(name) || privilege.resource_collection == Some(""@)
}

/// The actions of the first `n` privileges.
pub open spec fn actions_upto(privileges: Seq<MongoPrivilegeView>, n: int) -> Seq<Seq<char>>
    decreases n,
{
    if n <= 0 {
        Seq::empty()
    } else {
        actions_upto(privileges, n - 1) + privileges[n - 1].actions
    }
}

/// The actions of those of the first `n` privileges that cover a database.
pub open spec fn actions_on(privileges: Seq<MongoPrivilegeView>, db: Seq<char>, n: int) -> Seq<
    Seq<char>,
>
    decreases n,
{
    if n <= 0 {
        Seq::empty()
    } else if covers_database(privileges[n - 1], db) {
        actions_on(privileges, db, n - 1) + privileges[n - 1].actions
    } else {
        actions_on(privileges, db, n - 1)
    }
}

/// Whether one of the actions writes.
pub open spec fn some_write(actions: Seq<Seq<char>>) -> bool {
    exists|k: int| 0 <= k < actions.len() && write_actions().contains(#[trigger] actions[k])
}

fn any_writes(actions: &Vec<String>) -> (yes: bool)
    ensures
        yes == some_write(texts(actions@)),
{
    let mut i: usize = 0;
    while i < actions.len()
        invariant
            i <= actions@.len(),
            forall|k: int|
                0 <= k < i ==> !write_actions().contains(#[trigger] texts(actions@)[k]),
        decreases actions@.len() - i,
    {
        if is_write_action(actions[i].as_str()) {
            assert(write_actions().contains(texts(actions@)[i as int]));
            return true;
        }
        i = i + 1;
    }
    false
}

/// Whether an optional text is a given one or empty.
fn is_or_empty(value: &Option<String>, text: &str) -> (yes: bool)
    ensures
        yes == (opt_text(*value) == Some(text@) || opt_text(*value) == Some(""@)),
{
    match value {
        Some(found) => str_eq(found.as_str(), text) || str_eq(found.as_str(), ""),
        None => false,
    }
}

fn collect_actions_on(privileges: &Vec<MongoPrivilege>, db: &str) -> (actions: Vec<String>)
    ensures
        texts(actions@) == actions_on(views(privileges@), db@, privileges@.len() as int),
{
    let mut actions = no_texts();
    let mut i: usize = 0;
    while i < privileges.len()
        invariant
            i <= privileges@.len(),
            texts(actions@) == actions_on(views(privileges@), db@, i as int),
        decreases privileges@.len() - i,
    {
        assert(views(privileges@)[i as int] == privileges@[i as int]@);
        if is_or_empty(&privileges[i].resource_db, db) {
            extend_texts(&mut actions, &privileges[i].actions);
        }
        i = i + 1;
    }
    actions
}

/// The roles of a user, each with the actions that its database allows.
pub open spec fn bindings_upto(
    roles: Seq<MongoRoleView>,
    privileges: Seq<MongoPrivilegeView>,
    n: int,
) -> Seq<RoleBindingView>
    decreases n,
{
    if n <= 0 {
        Seq::empty()
    } else {
        bindings_upto(roles, privileges, n - 1).push(
            binding(
                roles[n - 1].db + "."@ + roles[n - 1].role,
                "connectionStatus"@,
                actions_on(privileges, roles[n - 1].db, privileges.len() as int),
            ),
        )
    }
}

/// The roles of a user, or the user itself where it has none.
pub open spec fn mongo_roles(status: ConnectionStatusView) -> Seq<RoleBindingView> {
    let found = bindings_upto(status.roles, status.privileges, status.roles.len() as int);
    if found.len() == 0 && status.username.len() > 0 {
        seq![binding(status.username, "connectionStatus"@, Seq::empty())]
    } else {
        found
    }
}

fn bind_roles(status: &ConnectionStatus) -> (roles: Vec<RoleBinding>)
    ensures
        views(roles@) == mongo_roles(status@),
{
    let mut roles: Vec<RoleBinding> = no_views();
    let mut i: usize = 0;
    while i < status.roles.len()
        invariant
            i <= status.roles@.len(),
            views(roles@) == bindings_upto(status@.roles, status@.privileges, i as int),
        decreases status.roles@.len() - i,
    {
        let role = &status.roles[i];
        assert(status@.roles[i as int] == role@);
        push_view(
            &mut roles,
            RoleBinding::new(
                cat3(role.db.as_str(), ".", role.role.as_str()).as_str(),
                "connectionStatus",
                collect_actions_on(&status.privileges, role.db.as_str()),
            ),
        );
        i = i + 1;
    }
    if roles.len() == 0 && !status.username.as_str().is_empty() {
        push_view(
            &mut roles,
            RoleBinding::new(status.username.as_str(), "connectionStatus", no_texts()),
        );
    }
    assert(views(roles@) =~= mongo_roles(status@));
    roles
}

/// The summary of what a user may do.
pub open spec fn mongo_permissions(privileges: Seq<MongoPrivilegeView>) -> PermissionSummaryView {
    let actions = actions_upto(privileges, privileges.len() as int);
    sorted_summary(with_actions(empty_permission_summary(), actions, actions.len() as int))
}

fn summarize(privileges: &Vec<MongoPrivilege>) -> (summary: PermissionSummary)
    ensures
        summary@ == mongo_permissions(views(privileges@)),
{
    let mut actions = no_texts();
    let mut i: usize = 0;
    while i < privileges.len()
        invariant
            i <= privileges@.len(),
            texts(actions@) == actions_upto(views(privileges@), i as int),
        decreases privileges@.len() - i,
    {
        assert(views(privileges@)[i as int] == privileges@[i as int]@);
        extend_texts(&mut actions, &privileges[i].actions);
        i = i + 1;
    }
    let mut summary = PermissionSummary::default();
    let mut j: usize = 0;
    while j < actions.len()
        invariant
            j <= actions@.len(),
            summary@ == with_actions(empty_permission_summary(), texts(actions@), j as int),
        decreases actions@.len() - j,
    {
        assert(texts(actions@)[j as int] == actions@[j as int]@);
        let class = classify_action(actions[j].as_str());
        file_permission(&mut summary, class, actions[j].clone());
        j = j + 1;
    }
    sort_permission_summary(&mut summary);
    summary
}

/// How grave it is to reach a resource, by whether it can be written.
pub open spec fn write_risk(writes: bool) -> Severity {
    if writes {
        Severity::Medium
    } else {
        Severity::Low
    }
}

/// The resource that stands for a database.
pub open spec fn database_exposure(
    database: DatabaseInfoView,
    privileges: Seq<MongoPrivilegeView>,
) -> ResourceExposureView {
    let actions = actions_on(privileges, database.name, privileges.len() as int);
    exposure(
        "database"@,
        database.name,
        actions,
        write_risk(some_write(actions)),
        match database.size_on_disk {
            Some(size) => "Database (size: "@ + signed_decimal(size as int) + " bytes)"@,
            None => "Database accessible by user"@,
        },
    )
}

/// Whether a privilege lets a user write to a collection.
pub open spec fn writes_to(privilege: MongoPrivilegeView, collection: CollectionInfoView) -> bool {
    covers_database(privilege, collection.database) && covers_collection(
        privilege,
        collection.name,
    ) && some_write(privilege.actions)
}

/// Whether a user can write to a collection.
pub open spec fn can_write(privileges: Seq<MongoPrivilegeView>, collection: CollectionInfoView) -> bool {
    exists|k: int| 0 <= k < privileges.len() && writes_to(#[trigger] privileges[k], collection)
}

/// The resource that stands for a collection.
pub open spec fn collection_exposure(
    collection: CollectionInfoView,
    privileges: Seq<MongoPrivilegeView>,
) -> ResourceExposureView {
    exposure(
        "collection"@,
        collection.database + "."@ + collection.name,
        Seq::empty(),
        write_risk(can_write(privileges, collection)),
        match collection.size_bytes {
            Some(size) => collection.collection_type + " collection (size: "@ + signed_decimal(
                size as int,
            ) + " bytes)"@,
            None => collection.collection_type + " collection"@,
        },
    )
}

fn expose_database(database: &DatabaseInfo, privileges: &Vec<MongoPrivilege>) -> (resource:
    ResourceExposure)
    ensures
        resource@ == database_exposure(database@, views(privileges@)),
{
    let actions = collect_actions_on(privileges, database.name.as_str());
    let risk = if any_writes(&actions) {
        Severity::Medium
    } else {
        Severity::Low
    };
    let reason = match database.size_on_disk {
        Some(size) => cat3("Database (size: ", i64_text(size).as_str(), " bytes)"),
        None => "Database accessible by user".to_owned(),
    };
    ResourceExposure::new("database", database.name.as_str(), actions, risk, reason.as_str())
}

fn is_writable(privileges: &Vec<MongoPrivilege>, collection: &CollectionInfo) -> (yes: bool)
    ensures
        yes == can_write(views(privileges@), collection@),
{
    let mut i: usize = 0;
    while i < privileges.len()
        invariant
            i <= privileges@.len(),
            forall|k: int|
                0 <= k < i ==> !writes_to(#[trigger] views(privileges@)[k], collection@),
        decreases privileges@.len() - i,
    {
        assert(views(privileges@)[i as int] == privileges@[i as int]@);
        if is_or_empty(&privileges[i].resource_db, collection.database.as_str()) && is_or_empty(
            &privileges[i].resource_collection,
            collection.name.as_str(),
        ) && any_writes(&privileges[i].actions) {
            assert(writes_to(views(privileges@)[i as int], collection@));
            return true;
        }
        i = i + 1;
    }
    false
}

fn expose_collection(collection: &CollectionInfo, privileges: &Vec<MongoPrivilege>) -> (resource:
    ResourceExposure)
    ensures
        resource@ == collection_exposure(collection@, views(privileges@)),
{
    let risk = if is_writable(privileges, collection) {
        Severity::Medium
    } else {
        Severity::Low
    };
    let reason = match collection.size_bytes {
        Some(size) => cat4(
            collection.collection_type.as_str(),
            " collection (size: ",
            i64_text(size).as_str(),
            " bytes)",
        ),
        None => cat2(collection.collection_type.as_str(), " collection"),
    };
    ResourceExposure::new(
        "collection",
        cat3(collection.database.as_str(), ".", collection.name.as_str()).as_str(),
        no_texts(),
        risk,
        reason.as_str(),
    )
}

/// The resources that stand for databases.
pub open spec fn database_exposures(
    databases: Seq<DatabaseInfoView>,
    privileges: Seq<MongoPrivilegeView>,
    n: int,
) -> Seq<ResourceExposureView>
    decreases n,
{
    if n <= 0 {
        Seq::empty()
    } else {
        database_exposures(databases, privileges, n - 1).push(
            database_exposure(databases[n - 1], privileges),
        )
    }
}

/// The resources that stand for collections.
pub open spec fn collection_exposures(
    collections: Seq<CollectionInfoView>,
    privileges: Seq<MongoPrivilegeView>,
    n: int,
) -> Seq<ResourceExposureView>
    decreases n,
{
    if n <= 0 {
        Seq::empty()
    } else {
        collection_exposures(collections, privileges, n - 1).push(
            collection_exposure(collections[n - 1], privileges),
        )
    }
}

fn expose_all(
    databases: &Vec<DatabaseInfo>,
    collections: &Vec<CollectionInfo>,
    privileges: &Vec<MongoPrivilege>,
) -> (resources: Vec<ResourceExposure>)
    ensures
        views(resources@) == database_exposures(
            views(databases@),
            views(privileges@),
            databases@.len() as int,
        ) + collection_exposures(
            views(collections@),
            views(privileges@),
            collections@.len() as int,
        ),
{
    let mut resources: Vec<ResourceExposure> = no_views();
    let mut i: usize = 0;
    while i < databases.len()
        invariant
            i <= databases@.len(),
            views(resources@) == database_exposures(
                views(databases@),
                views(privileges@),
                i as int,
            ),
        decreases databases@.len() - i,
    {
        assert(views(databases@)[i as int] == databases@[i as int]@);
        push_view(&mut resources, expose_database(&databases[i], privileges));
        i = i + 1;
    }
    let ghost first = views(resources@);
    let mut j: usize = 0;
    assert(first =~= first + collection_exposures(views(collections@), views(privileges@), 0));
    while j < collections.len()
        invariant
            j <= collections@.len(),
            views(resources@) == first + collection_exposures(
                views(collections@),
                views(privileges@),
                j as int,
            ),
        decreases collections@.len() - j,
    {
        assert(views(collections@)[j as int] == collections@[j as int]@);
        push_view(&mut resources, expose_collection(&collections[j], privileges));
        j = j + 1;
        assert(views(resources@) =~= first + collection_exposures(
            views(collections@),
            views(privileges@),
            j as int,
        ));
    }
    resources
}

/// How grave it is what a user may do.
pub open spec fn mongo_severity(permissions: PermissionSummaryView) -> Severity {
    if permissions.admin.len() > 0 {
        Severity::Critical
    } else if permissions.privilege_escalation.len() > 0 {
        Severity::High
    } else if permissions.risky.len() > 0 {
        Severity::Medium
    } else {
        Severity::Low
    }
}

pub fn derive_severity(permissions: &PermissionSummary) -> (severity: Severity)
    ensures
        severity == mongo_severity(permissions@),
{
    if permissions.admin.len() > 0 {
        Severity::Critical
    } else if permissions.privilege_escalation.len() > 0 {
        Severity::High
    } else if permissions.risky.len() > 0 {
        Severity::Medium
    } else {
        Severity::Low
    }
}

/// Whether a privilege covers everything.
pub open spec fn is_cluster_wide(privilege: MongoPrivilegeView) -> bool {
    privilege.resource_db == Some(""@) && privilege.resource_collection == Some(""@)
}

/// Whether one of the privileges covers everything.
pub open spec fn some_cluster_wide(privileges: Seq<MongoPrivilegeView>) -> bool {
    exists|k: int| 0 <= k < privileges.len() && is_cluster_wide(#[trigger] privileges[k])
}

fn any_cluster_wide(privileges: &Vec<MongoPrivilege>) -> (yes: bool)
    ensures
        yes == some_cluster_wide(views(privileges@)),
{
    let mut i: usize = 0;
    while i < privileges.len()
        invariant
            i <= privileges@.len(),
            forall|k: int| 0 <= k < i ==> !is_cluster_wide(#[trigger] views(privileges@)[k]),
        decreases privileges@.len() - i,
    {
        assert(views(privileges@)[i as int] == privileges@[i as int]@);
        if is_or_empty(&privileges[i].resource_db, "") && is_or_empty(
            &privileges[i].resource_collection,
            "",
        ) {
            assert(is_cluster_wide(views(privileges@)[i as int]));
            return true;
        }
        i = i + 1;
    }
    false
}

/// The version that a `buildInfo` document gives.
pub open spec fn version_in(build_info: Result<BsonValue, String>) -> Seq<char> {
    match build_info {
        Ok(document) => text_else(text_of(field(document, "version"@)), "unknown"@),
        Err(_) => "unknown"@,
    }
}

/// The databases that were listed.
pub open spec fn listed_databases(reply: Result<BsonValue, String>) -> Seq<DatabaseInfoView> {
    match reply {
        Ok(document) => databases_in(document),
        Err(_) => Seq::empty(),
    }
}

/// The notes on a connection.
pub open spec fn mongo_notes(
    databases: Result<BsonValue, String>,
    permissions: PermissionSummaryView,
    privileges: Seq<MongoPrivilegeView>,
) -> Seq<Seq<char>> {
    let first = match databases {
        Ok(_) => Seq::empty(),
        Err(error) => seq!["Database enumeration failed: "@ + error@],
    };
    let second = if permissions.admin.len() > 0 {
        first.push("User has administrative privileges on this MongoDB deployment"@)
    } else {
        first
    };
    if some_cluster_wide(privileges) {
        second.push("User has cluster-wide privileges"@)
    } else {
        second
    }
}

/// What a MongoDB connection gives access to.
pub open spec fn mongo_result(
    status: BsonValue,
    build_info: Result<BsonValue, String>,
    database_list: Result<BsonValue, String>,
    collection_lists: Seq<Result<BsonValue, String>>,
) -> AccessMapResultView {
    let known = status_of(status);
    let databases = listed_databases(database_list);
    let collections = all_collections(databases, collection_lists, databases.len() as int);
    let permissions = mongo_permissions(known.privileges);
    let severity = mongo_severity(permissions);
    AccessMapResultView {
        cloud: "mongodb"@,
        fingerprint: None,
        identity: AccessSummaryView {
            id: if known.username.len() == 0 {
                "anonymous"@
            } else {
                known.username
            },
            access_type: if permissions.admin.len() > 0 {
                "admin_user"@
            } else {
                "user"@
            },
            project: if known.auth_db.len() == 0 {
                None
            } else {
                Some(known.auth_db)
            },
            tenant: None,
            account_id: None,
        },
        roles: mongo_roles(known),
        permissions,
        resources: database_exposures(databases, known.privileges, databases.len() as int)
            + collection_exposures(collections, known.privileges, collections.len() as int),
        severity,
        recommendations: recommendations(severity),
        risk_notes: mongo_notes(database_list, permissions, known.privileges),
        token_details: None,
        provider_metadata: Some(
            ProviderMetadataView {
                version: Some(version_in(build_info)),
                enterprise: None,
                authorization_evidence: None,
            },
        ),
        mapping_error: None,
    }
}

fn gather_collections(
    databases: &Vec<DatabaseInfo>,
    listings: &Vec<Result<BsonValue, String>>,
) -> (collections: Vec<CollectionInfo>)
    ensures
        views(collections@) == all_collections(
            views(databases@),
            listings@,
            databases@.len() as int,
        ),
{
    let mut collections: Vec<CollectionInfo> = no_views();
    let mut i: usize = 0;
    while i < databases.len()
        invariant
            i <= databases@.len(),
            views(collections@) == all_collections(views(databases@), listings@, i as int),
        decreases databases@.len() - i,
    {
        assert(views(databases@)[i as int] == databases@[i as int]@);
        if i < listings.len() {
            match &listings[i] {
                Ok(document) => list_collections(
                    document,
                    databases[i].name.as_str(),
                    &mut collections,
                ),
                Err(_) => {},
            }
        }
        i = i + 1;
    }
    collections
}

/// Maps a MongoDB connection from what the server answered: the status of the connection, what it
/// is, its databases and, for each of them, its collections.
pub fn map_access_from_uri(
    status: &BsonValue,
    build_info: &Result<BsonValue, String>,
    database_list: &Result<BsonValue, String>,
    collection_lists: &Vec<Result<BsonValue, String>>,
) -> (result: AccessMapResult)
    ensures
        result@ == mongo_result(*status, *build_info, *database_list, collection_lists@),
{
    let known = parse_connection_status(status);
    let version = match build_info {
        Ok(document) => match document.get_str("version") {
            Some(version) => version,
            None => "unknown".to_owned(),
        },
        Err(_) => "unknown".to_owned(),
    };
    let mut risk_notes = no_texts();
    let databases: Vec<DatabaseInfo> = match database_list {
        Ok(document) => parse_database_list(document),
        Err(error) => {
            push_text(&mut risk_notes, cat2("Database enumeration failed: ", error.as_str()));
            assert(texts(risk_notes@) =~= seq!["Database enumeration failed: "@ + error@]);
            no_views()
        },
    };
    let collections = gather_collections(&databases, collection_lists);
    let roles = bind_roles(&known);
    let permissions = summarize(&known.privileges);
    let resources = expose_all(&databases, &collections, &known.privileges);
    let severity = derive_severity(&permissions);
    if permissions.admin.len() > 0 {
        push_text(
            &mut risk_notes,
            "User has administrative privileges on this MongoDB deployment".to_owned(),
        );
    }
    if any_cluster_wide(&known.privileges) {
        push_text(&mut risk_notes, "User has cluster-wide privileges".to_owned());
    }
    let id = if known.username.as_str().is_empty() {
        "anonymous".to_owned()
    } else {
        known.username.clone()
    };
    let access_type: &str = if permissions.admin.len() > 0 {
        "admin_user"
    } else {
        "user"
    };
    let project: Option<String> = if known.auth_db.as_str().is_empty() {
        None
    } else {
        Some(known.auth_db.clone())
    };
    AccessMapResult {
        cloud: "mongodb".to_owned(),
        fingerprint: None,
        identity: AccessSummary {
            id,
            access_type: access_type.to_owned(),
            project,
            tenant: None,
            account_id: None,
        },
        roles,
        permissions,
        resources,
        severity,
        recommendations: build_recommendations(severity),
        risk_notes,
        token_details: None,
        provider_metadata: Some(
            ProviderMetadata { version: Some(version), enterprise: None, authorization_evidence: None },
        ),
        mapping_error: None,
    }
}

/// An action is filed by what it can do: what shuts down, reconfigures or otherwise administers as
/// administration, what changes roles and users as a way to gain permissions, and what writes, or is
/// not known, as a risk. Only the known actions that read count as reading, and a write never does.
pub proof fn lemma_actions_are_filed_by_what_they_do(action: Seq<char>)
    ensures
        ({
            let name = lowered(action);
            let class = action_class(action);
            &&& name == "root"@ || name == "shutdown"@ || name == "internal"@ || name == "hostinfo"@ || name
                == "resync"@ || name == "replsetstatechange"@ || name == "closeallsessions"@ || holds(
                name,
                "adm"@,
            ) ==> class == PermissionClass::Admin
            &&& name == "createuser"@ || name == "createrole"@ || name == "dropuser"@ || name
                == "droprole"@ || name == "grantrole"@ || name == "revokerole"@ || name
                == "grantrolestouser"@ || name == "updateuser"@ ==> class
                == PermissionClass::PrivilegeEscalation || class == PermissionClass::Admin
            &&& name == "insert"@ || name == "update"@ || name == "remove"@ || name
                == "createcollection"@ || name == "dropcollection"@ || name == "dropdatabase"@ || name
                == "createindex"@ || name == "dropindex"@ ==> class == PermissionClass::Risky
            &&& class == PermissionClass::ReadOnly ==> name == "find"@ || name == "listdatabases"@ || name
                == "listcollections"@ || name == "listindexes"@ || name == "collstats"@ || name
                == "dbstats"@ || name == "connpoolstats"@ || name == "serverstatus"@ || name
                == "toploogy"@ || name == "getcmdlineopts"@ || name == "getlog"@ || name
                == "getparameter"@ || name == "indexstats"@ || name == "top"@ || name == "validate"@ || name
                == "dbhash"@
            &&& name == "find"@ || name == "listdatabases"@ || name == "listcollections"@ || name
                == "listindexes"@ ==> class == PermissionClass::ReadOnly
        }),
{
    let name = lowered(action);
    let admin = admin_actions();
    assert(admin[0] == "shutdown"@ && admin[1] == "replsetstatechange"@ && admin[2] == "resync"@
        && admin[4] == "closeallsessions"@ && admin[6] == "internal"@ && admin[7] == "hostinfo"@);
    let gaining = escalation_actions();
    assert(gaining[0] == "createrole"@ && gaining[1] == "createuser"@ && gaining[2] == "droprole"@
        && gaining[3] == "dropuser"@ && gaining[4] == "grantrole"@ && gaining[5] == "revokerole"@
        && gaining[6] == "grantrolestouser"@ && gaining[8] == "updateuser"@);
    let read = read_actions();
    assert(read[0] == "find"@ && read[1] == "listdatabases"@ && read[2] == "listcollections"@ && read[3]
        == "listindexes"@);
    reveal_strlit("insert");
    reveal_strlit("update");
    reveal_strlit("remove");
    reveal_strlit("createcollection");
    reveal_strlit("dropcollection");
    reveal_strlit("dropdatabase");
    reveal_strlit("createindex");
    reveal_strlit("dropindex");
    reveal_strlit("find");
    reveal_strlit("listdatabases");
    reveal_strlit("listcollections");
    reveal_strlit("listindexes");
    reveal_strlit("adm");
    lemma_plain_name(name);
}

proof fn lemma_plain_name(name: Seq<char>)
    ensures
        name == "insert"@ || name == "update"@ || name == "remove"@ || name == "createcollection"@ || name
            == "dropcollection"@ || name == "dropdatabase"@ || name == "createindex"@ || name
            == "dropindex"@ ==> !administers(name) && !escalation_actions().contains(name)
            && !read_actions().contains(name),
        name == "find"@ || name == "listdatabases"@ || name == "listcollections"@ || name
            == "listindexes"@ ==> !administers(name) && !escalation_actions().contains(name),
{
    reveal_strlit("insert");
    reveal_strlit("update");
    reveal_strlit("remove");
    reveal_strlit("createcollection");
    reveal_strlit("dropcollection");
    reveal_strlit("dropdatabase");
    reveal_strlit("createindex");
    reveal_strlit("dropindex");
    reveal_strlit("find");
    reveal_strlit("listdatabases");
    reveal_strlit("listcollections");
    reveal_strlit("listindexes");
    if holds(name, "adm"@) {
        reveal_strlit("adm");
        let k = choose|k: int| #[trigger] stands_at(name, "adm"@, k);
        assert(name.subrange(k, k + 3)[0] == 'a' && name.subrange(k, k + 3)[1] == 'd');
        assert(name[k] == 'a' && name[k + 1] == 'd');
        assert(name != "insert"@);
        assert(name != "update"@);
        assert(name != "remove"@);
        assert(name != "createcollection"@);
        assert(name != "dropcollection"@);
        assert(name != "dropdatabase"@);
        assert(name != "createindex"@);
        assert(name != "dropindex"@);
        assert(name != "find"@);
        assert(name != "listdatabases"@);
        assert(name != "listcollections"@);
        assert(name != "listindexes"@);
    }
    reveal_strlit("root");
    reveal_strlit("shutdown");
    reveal_strlit("replsetstatechange");
    reveal_strlit("resync");
    reveal_strlit("applicationmessage");
    reveal_strlit("closeallsessions");
    reveal_strlit("forceuniverserecovery");
    reveal_strlit("internal");
    reveal_strlit("hostinfo");
    reveal_strlit("createrole");
    reveal_strlit("createuser");
    reveal_strlit("droprole");
    reveal_strlit("dropuser");
    reveal_strlit("grantrole");
    reveal_strlit("revokerole");
    reveal_strlit("grantrolestouser");
    reveal_strlit("revokerolesfrommuser");
    reveal_strlit("updateuser");
    reveal_strlit("collstats");
    reveal_strlit("dbstats");
    reveal_strlit("connpoolstats");
    reveal_strlit("serverstatus");
    reveal_strlit("toploogy");
    reveal_strlit("getcmdlineopts");
    reveal_strlit("getlog");
    reveal_strlit("getparameter");
    reveal_strlit("indexstats");
    reveal_strlit("top");
    reveal_strlit("validate");
    reveal_strlit("dbhash");
    assert("insert"@.len() == 6);
    assert("update"@.len() == 6);
    assert("remove"@.len() == 6);
    assert("createcollection"@.len() == 16);
    assert("dropcollection"@.len() == 14);
    assert("dropdatabase"@.len() == 12);
    assert("createindex"@.len() == 11);
    assert("dropindex"@.len() == 9);
    assert("find"@.len() == 4);
    assert("listdatabases"@.len() == 13);
    assert("listcollections"@.len() == 15);
    assert("listindexes"@.len() == 11);
    assert("root"@.len() == 4);
    assert("shutdown"@.len() == 8);
    assert("replsetstatechange"@.len() == 18);
    assert("resync"@.len() == 6);
    assert("applicationmessage"@.len() == 18);
    assert("closeallsessions"@.len() == 16);
    assert("forceuniverserecovery"@.len() == 21);
    assert("internal"@.len() == 8);
    assert("hostinfo"@.len() == 8);
    assert("createrole"@.len() == 10);
    assert("createuser"@.len() == 10);
    assert("droprole"@.len() == 8);
    assert("dropuser"@.len() == 8);
    assert("grantrole"@.len() == 9);
    assert("revokerole"@.len() == 10);
    assert("grantrolestouser"@.len() == 16);
    assert("revokerolesfrommuser"@.len() == 20);
    assert("updateuser"@.len() == 10);
    assert("collstats"@.len() == 9);
    assert("dbstats"@.len() == 7);
    assert("connpoolstats"@.len() == 13);
    assert("serverstatus"@.len() == 12);
    assert("toploogy"@.len() == 8);
    assert("getcmdlineopts"@.len() == 14);
    assert("getlog"@.len() == 6);
    assert("getparameter"@.len() == 12);
    assert("indexstats"@.len() == 10);
    assert("top"@.len() == 3);
    assert("validate"@.len() == 8);
    assert("dbhash"@.len() == 6);
    assert("insert"@[0] != "resync"@[0]);
    assert("insert"@[0] != "getlog"@[0]);
    assert("insert"@[0] != "dbhash"@[0]);
    assert("update"@[0] != "resync"@[0]);
    assert("update"@[0] != "getlog"@[0]);
    assert("update"@[0] != "dbhash"@[0]);
    assert("remove"@[2] != "resync"@[2]);
    assert("remove"@[0] != "getlog"@[0]);
    assert("remove"@[0] != "dbhash"@[0]);
    assert("createcollection"@[1] != "closeallsessions"@[1]);
    assert("createcollection"@[0] != "grantrolestouser"@[0]);
    assert("dropcollection"@[0] != "getcmdlineopts"@[0]);
    assert("dropdatabase"@[0] != "serverstatus"@[0]);
    assert("dropdatabase"@[0] != "getparameter"@[0]);
    assert("createindex"@[0] != "listindexes"@[0]);
    assert("dropindex"@[0] != "grantrole"@[0]);
    assert("dropindex"@[0] != "collstats"@[0]);
    assert("find"@[0] != "root"@[0]);
}

proof fn lemma_with_actions(summary: PermissionSummaryView, actions: Seq<Seq<char>>, n: int, k: int)
    requires
        0 <= k < n <= actions.len(),
    ensures
        class_list(with_actions(summary, actions, n), action_class(actions[k])).contains(actions[k]),
    decreases n,
{
    let before = with_actions(summary, actions, n - 1);
    lemma_filed(before, action_class(actions[n - 1]), actions[n - 1]);
    if k < n - 1 {
        lemma_with_actions(summary, actions, n - 1, k);
        assert(class_list(before, action_class(actions[k])).contains(actions[k]));
    }
}

proof fn lemma_actions_source(actions: Seq<Seq<char>>, n: int, class: PermissionClass)
    requires
        0 <= n <= actions.len(),
        class_list(with_actions(empty_permission_summary(), actions, n), class).len() > 0,
    ensures
        exists|k: int| 0 <= k < n && action_class(#[trigger] actions[k]) == class,
    decreases n,
{
    if n > 0 {
        let before = with_actions(empty_permission_summary(), actions, n - 1);
        lemma_filed(before, action_class(actions[n - 1]), actions[n - 1]);
        if action_class(actions[n - 1]) != class {
            assert(class_list(before, class) == class_list(
                with_actions(empty_permission_summary(), actions, n),
                class,
            ));
            lemma_actions_source(actions, n - 1, class);
        }
    }
}

proof fn lemma_actions_upto(privileges: Seq<MongoPrivilegeView>, n: int, k: int, j: int)
    requires
        0 <= k < n <= privileges.len(),
        0 <= j < privileges[k].actions.len(),
    ensures
        actions_upto(privileges, n).contains(privileges[k].actions[j]),
    decreases n,
{
    let before = actions_upto(privileges, n - 1);
    let now = actions_upto(privileges, n);
    if k < n - 1 {
        lemma_actions_upto(privileges, n - 1, k, j);
        let m = choose|m: int| 0 <= m < before.len() && before[m] == privileges[k].actions[j];
        assert(now[m] == before[m]);
    } else {
        assert(now[before.len() + j] == privileges[k].actions[j]);
    }
}

/// Every action of every privilege is reported in the class of what it can do, and the gravest decides:
/// one that administers makes the user critical and an administrator, one on roles or users high at
/// least, any other that is not known to read medium at least. A user that is rated low can do nothing
/// but read.
pub proof fn lemma_gravest_action_decides(
    status: BsonValue,
    build_info: Result<BsonValue, String>,
    database_list: Result<BsonValue, String>,
    collection_lists: Seq<Result<BsonValue, String>>,
    k: int,
    j: int,
)
    requires
        0 <= k < status_of(status).privileges.len(),
        0 <= j < status_of(status).privileges[k].actions.len(),
    ensures
        ({
            let result = mongo_result(status, build_info, database_list, collection_lists);
            let action = status_of(status).privileges[k].actions[j];
            let class = action_class(action);
            &&& class_list(result.permissions, class).contains(action)
            &&& class == PermissionClass::Admin ==> result.severity == Severity::Critical
                && result.identity.access_type == "admin_user"@
            &&& class == PermissionClass::PrivilegeEscalation ==> result.severity == Severity::High
                || result.severity == Severity::Critical
            &&& class == PermissionClass::Risky ==> result.severity != Severity::Low
            &&& lowered(action) == "root"@ || holds(lowered(action), "adm"@) ==> result.severity
                == Severity::Critical
        }),
{
    let privileges = status_of(status).privileges;
    let actions = actions_upto(privileges, privileges.len() as int);
    let action = privileges[k].actions[j];
    let class = action_class(action);
    lemma_actions_upto(privileges, privileges.len() as int, k, j);
    let m = choose|m: int| 0 <= m < actions.len() && actions[m] == action;
    let raw = with_actions(empty_permission_summary(), actions, actions.len() as int);
    lemma_with_actions(empty_permission_summary(), actions, actions.len() as int, m);
    lemma_sorted_summary(raw, class);
    assert(class_list(sorted_summary(raw), class).contains(action));
    lemma_actions_are_filed_by_what_they_do(action);
}

/// Only what a privilege allows is held against a user: where no action administers, the user is not
/// critical and no administrator; where every action is known to read, the user is low.
pub proof fn lemma_nothing_else_decides(
    status: BsonValue,
    build_info: Result<BsonValue, String>,
    database_list: Result<BsonValue, String>,
    collection_lists: Seq<Result<BsonValue, String>>,
)
    ensures
        ({
            let result = mongo_result(status, build_info, database_list, collection_lists);
            let privileges = status_of(status).privileges;
            &&& (forall|a: int, b: int|
                0 <= a < privileges.len() && 0 <= b < privileges[a].actions.len() ==> action_class(
                    #[trigger] privileges[a].actions[b],
                ) != PermissionClass::Admin) ==> result.severity != Severity::Critical
                && result.identity.access_type == "user"@
            &&& (forall|a: int, b: int|
                0 <= a < privileges.len() && 0 <= b < privileges[a].actions.len() ==> action_class(
                    #[trigger] privileges[a].actions[b],
                ) == PermissionClass::ReadOnly) ==> result.severity == Severity::Low
        }),
{
    let privileges = status_of(status).privileges;
    let n = privileges.len() as int;
    let actions = actions_upto(privileges, n);
    let raw = with_actions(empty_permission_summary(), actions, actions.len() as int);
    lemma_sorted_classes_stay_filled(raw, PermissionClass::Admin);
    lemma_sorted_classes_stay_filled(raw, PermissionClass::PrivilegeEscalation);
    lemma_sorted_classes_stay_filled(raw, PermissionClass::Risky);
    assert forall|class: PermissionClass|
        #![trigger class_list(raw, class)]
        class_list(raw, class).len() > 0 implies exists|a: int, b: int|
        0 <= a < privileges.len() && 0 <= b < privileges[a].actions.len() && action_class(
            #[trigger] privileges[a].actions[b],
        ) == class by {
        lemma_actions_source(actions, actions.len() as int, class);
        let m = choose|m: int| 0 <= m < actions.len() && action_class(#[trigger] actions[m]) == class;
        lemma_actions_from(privileges, n, m);
    }
    assert(class_list(raw, PermissionClass::Admin) == raw.admin);
    assert(class_list(raw, PermissionClass::PrivilegeEscalation) == raw.privilege_escalation);
    assert(class_list(raw, PermissionClass::Risky) == raw.risky);
}

proof fn lemma_actions_from(privileges: Seq<MongoPrivilegeView>, n: int, m: int)
    requires
        0 <= n <= privileges.len(),
        0 <= m < actions_upto(privileges, n).len(),
    ensures
        exists|a: int, b: int|
            0 <= a < n && 0 <= b < privileges[a].actions.len() && #[trigger] privileges[a].actions[b]
                == actions_upto(privileges, n)[m],
    decreases n,
{
    if n > 0 {
        let before = actions_upto(privileges, n - 1);
        if m < before.len() {
            lemma_actions_from(privileges, n - 1, m);
        } else {
            assert(privileges[n - 1].actions[m - before.len()] == actions_upto(privileges, n)[m]);
        }
    }
}

proof fn lemma_actions_on(privileges: Seq<MongoPrivilegeView>, db: Seq<char>, n: int, k: int, j: int)
    requires
        0 <= k < n <= privileges.len(),
        privileges[k].resource_db == Some(db) || privileges[k].resource_db == Some(""@),
        0 <= j < privileges[k].actions.len(),
    ensures
        actions_on(privileges, db, n).contains(privileges[k].actions[j]),
    decreases n,
{
    let before = actions_on(privileges, db, n - 1);
    let now = actions_on(privileges, db, n);
    if k < n - 1 {
        lemma_actions_on(privileges, db, n - 1, k, j);
        let m = choose|m: int| 0 <= m < before.len() && before[m] == privileges[k].actions[j];
        assert(now[m] == before[m]);
    } else {
        assert(now[before.len() + j] == privileges[k].actions[j]);
    }
}

proof fn lemma_actions_on_from(privileges: Seq<MongoPrivilegeView>, db: Seq<char>, n: int, m: int)
    requires
        0 <= n <= privileges.len(),
        0 <= m < actions_on(privileges, db, n).len(),
    ensures
        exists|a: int, b: int|
            0 <= a < n && (privileges[a].resource_db == Some(db) || privileges[a].resource_db == Some(
                ""@,
            )) && 0 <= b < privileges[a].actions.len() && #[trigger] privileges[a].actions[b]
                == actions_on(privileges, db, n)[m],
    decreases n,
{
    if n > 0 {
        let before = actions_on(privileges, db, n - 1);
        if m < before.len() {
            lemma_actions_on_from(privileges, db, n - 1, m);
        } else {
            assert(privileges[n - 1].actions[m - before.len()] == actions_on(privileges, db, n)[m]);
        }
    }
}

/// An action that puts data in, changes it or takes it out.
pub open spec fn is_data_write(action: Seq<char>) -> bool {
    action == "insert"@ || action == "update"@ || action == "remove"@ || action == "createcollection"@
        || action == "dropcollection"@ || action == "dropdatabase"@ || action == "createindex"@ || action
        == "dropindex"@
}

/// A database is reported with the actions of every privilege on it and on every database. It is at
/// medium risk where one of these writes, and at low risk where the privileges on it only find. A
/// privilege on another database says nothing of it.
pub proof fn lemma_databases_are_exposed_as_privileged(
    database: DatabaseInfoView,
    privileges: Seq<MongoPrivilegeView>,
    k: int,
    j: int,
)
    ensures
        database_exposure(database, privileges).name == database.name,
        0 <= k < privileges.len() && 0 <= j < privileges[k].actions.len() && (
        privileges[k].resource_db == Some(database.name) || privileges[k].resource_db == Some(""@)) ==> {
            &&& database_exposure(database, privileges).permissions.contains(privileges[k].actions[j])
            &&& is_data_write(privileges[k].actions[j]) ==> database_exposure(
                database,
                privileges,
            ).risk == "medium"@
        },
        (forall|a: int|
            0 <= a < privileges.len() ==> (#[trigger] privileges[a]).resource_db != Some(database.name)
                && privileges[a].resource_db != Some(""@)) ==> database_exposure(
            database,
            privileges,
        ).permissions.len() == 0 && database_exposure(database, privileges).risk == "low"@,
        (forall|a: int, b: int|
            0 <= a < privileges.len() && 0 <= b < privileges[a].actions.len() ==> #[trigger] privileges[a].actions[b]
                == "find"@) ==> database_exposure(database, privileges).risk == "low"@,
{
    let n = privileges.len() as int;
    let actions = actions_on(privileges, database.name, n);
    lemma_write_names();
    if 0 <= k < n && 0 <= j < privileges[k].actions.len() && (privileges[k].resource_db == Some(
        database.name,
    ) || privileges[k].resource_db == Some(""@)) {
        lemma_actions_on(privileges, database.name, n, k, j);
        let m = choose|m: int| 0 <= m < actions.len() && actions[m] == privileges[k].actions[j];
        if is_data_write(privileges[k].actions[j]) {
            assert(write_actions().contains(actions[m]));
        }
    }
    if actions.len() > 0 {
        lemma_actions_on_from(privileges, database.name, n, 0);
    }
    if some_write(actions) {
        let m = choose|m: int| 0 <= m < actions.len() && write_actions().contains(#[trigger] actions[m]);
        lemma_actions_on_from(privileges, database.name, n, m);
    }
}

proof fn lemma_write_names()
    ensures
        forall|action: Seq<char>| is_data_write(action) ==> #[trigger] write_actions().contains(action),
        !write_actions().contains("find"@),
{
    let list = write_actions();
    assert(list[0] == "insert"@ && list[1] == "update"@ && list[2] == "remove"@ && list[3]
        == "createcollection"@ && list[4] == "dropcollection"@ && list[5] == "dropdatabase"@ && list[6]
        == "createindex"@ && list[7] == "dropindex"@);
    reveal_strlit("find");
    reveal_strlit("insert");
    reveal_strlit("update");
    reveal_strlit("remove");
    reveal_strlit("createcollection");
    reveal_strlit("dropcollection");
    reveal_strlit("dropdatabase");
    reveal_strlit("createindex");
    reveal_strlit("dropindex");
    reveal_strlit("converttorecapped");
    reveal_strlit("renamecollectionsamedatabase");
    assert("find"@.len() == 4);
}

/// A collection is at medium risk exactly where some privilege covers both its database and itself, by
/// name or as one of all, and writes.
pub proof fn lemma_collections_are_exposed_as_privileged(
    collection: CollectionInfoView,
    privileges: Seq<MongoPrivilegeView>,
    k: int,
    j: int,
)
    ensures
        collection_exposure(collection, privileges).name == collection.database + "."@ + collection.name,
        0 <= k < privileges.len() && 0 <= j < privileges[k].actions.len() && (
        privileges[k].resource_db == Some(collection.database) || privileges[k].resource_db == Some(""@))
            && (privileges[k].resource_collection == Some(collection.name)
            || privileges[k].resource_collection == Some(""@)) && is_data_write(
            privileges[k].actions[j],
        ) ==> collection_exposure(collection, privileges).risk == "medium"@,
        (forall|a: int|
            0 <= a < privileges.len() ==> ((#[trigger] privileges[a]).resource_db != Some(
                collection.database,
            ) && privileges[a].resource_db != Some(""@)) || (privileges[a].resource_collection != Some(
                collection.name,
            ) && privileges[a].resource_collection != Some(""@))) ==> collection_exposure(
            collection,
            privileges,
        ).risk == "low"@,
{
    lemma_write_names();
    if 0 <= k < privileges.len() && 0 <= j < privileges[k].actions.len() && is_data_write(
        privileges[k].actions[j],
    ) {
        assert(write_actions().contains(privileges[k].actions[j]));
        assert(some_write(privileges[k].actions));
        assert(writes_to(privileges[k], collection) ==> can_write(privileges, collection));
    }
}

proof fn lemma_exposures(
    databases: Seq<DatabaseInfoView>,
    collections: Seq<CollectionInfoView>,
    privileges: Seq<MongoPrivilegeView>,
    n: int,
    m: int,
)
    requires
        0 <= n <= databases.len(),
        0 <= m <= collections.len(),
    ensures
        database_exposures(databases, privileges, n).len() == n,
        forall|d: int|
            0 <= d < n ==> #[trigger] database_exposures(databases, privileges, n)[d]
                == database_exposure(databases[d], privileges),
        collection_exposures(collections, privileges, m).len() == m,
        forall|c: int|
            0 <= c < m ==> #[trigger] collection_exposures(collections, privileges, m)[c]
                == collection_exposure(collections[c], privileges),
    decreases n + m,
{
    if n > 0 {
        lemma_exposures(databases, collections, privileges, n - 1, m);
    } else if m > 0 {
        lemma_exposures(databases, collections, privileges, n, m - 1);
    }
}

/// Every database and every collection that was listed is among the resources of the result.
pub proof fn lemma_listed_resources_are_reported(
    status: BsonValue,
    build_info: Result<BsonValue, String>,
    database_list: Result<BsonValue, String>,
    collection_lists: Seq<Result<BsonValue, String>>,
    d: int,
)
    ensures
        ({
            let result = mongo_result(status, build_info, database_list, collection_lists);
            let privileges = status_of(status).privileges;
            let databases = listed_databases(database_list);
            let collections = all_collections(databases, collection_lists, databases.len() as int);
            &&& result.resources.len() == databases.len() + collections.len()
            &&& 0 <= d < databases.len() ==> result.resources[d] == database_exposure(
                databases[d],
                privileges,
            )
            &&& 0 <= d < collections.len() ==> result.resources[databases.len() + d]
                == collection_exposure(collections[d], privileges)
        }),
{
    let privileges = status_of(status).privileges;
    let databases = listed_databases(database_list);
    let collections = all_collections(databases, collection_lists, databases.len() as int);
    lemma_exposures(
        databases,
        collections,
        privileges,
        databases.len() as int,
        collections.len() as int,
    );
}

proof fn lemma_privileges_read(list: Seq<BsonValue>, n: int, k: int)
    requires
        0 <= k < n <= list.len(),
        privilege_in(list[k]) is Some,
    ensures
        privileges_upto(list, n).contains(privilege_in(list[k])->0),
    decreases n,
{
    let before = privileges_upto(list, n - 1);
    let now = privileges_upto(list, n);
    let wanted = privilege_in(list[k])->0;
    if k < n - 1 {
        lemma_privileges_read(list, n - 1, k);
        let m = choose|m: int| 0 <= m < before.len() && before[m] == wanted;
        assert(now[m] == wanted);
    } else {
        assert(now[before.len() as int] == wanted);
    }
}

proof fn lemma_texts_read(list: Seq<BsonValue>, n: int, k: int)
    requires
        0 <= k < n <= list.len(),
        list[k] is Text,
    ensures
        texts_upto(list, n).contains(list[k]->Text_0@),
    decreases n,
{
    let before = texts_upto(list, n - 1);
    let now = texts_upto(list, n);
    let wanted = list[k]->Text_0@;
    if k < n - 1 {
        lemma_texts_read(list, n - 1, k);
        let m = choose|m: int| 0 <= m < before.len() && before[m] == wanted;
        assert(now[m] == wanted);
    } else {
        assert(now[before.len() as int] == wanted);
    }
}

/// Every privilege that a server tells of is read, wherever it stands in the list, with each of its
/// actions.
pub proof fn lemma_every_privilege_is_read(
    status: BsonValue,
    info: BsonValue,
    list: Vec<BsonValue>,
    k: int,
    actions: Vec<BsonValue>,
    j: int,
)
    requires
        field(status, "authInfo"@) == Some(info),
        field(info, "authenticatedUserPrivileges"@) == Some(BsonValue::Array(list)),
        0 <= k < list@.len(),
        field(list@[k], "resource"@) is Some && field(list@[k], "resource"@)->0 is Document,
        field(list@[k], "actions"@) == Some(BsonValue::Array(actions)),
        0 <= j < actions@.len(),
        actions@[j] is Text,
    ensures
        exists|i: int|
            0 <= i < status_of(status).privileges.len() && {
                let privilege = #[trigger] status_of(status).privileges[i];
                let resource = field(list@[k], "resource"@)->0;
                &&& privilege.resource_db == text_of(field(resource, "db"@))
                &&& privilege.resource_collection == text_of(field(resource, "collection"@))
                &&& privilege.actions.contains(actions@[j]->Text_0@)
            },
{
    lemma_privileges_read(list@, list@.len() as int, k);
    lemma_texts_read(actions@, actions@.len() as int, j);
    let found = status_of(status).privileges;
    let wanted = privilege_in(list@[k])->0;
    let i = choose|i: int| 0 <= i < found.len() && found[i] == wanted;
    assert(found[i] == wanted);
}

proof fn lemma_field_at(fields: Seq<(String, BsonValue)>, key: Seq<char>, i: int)
    requires
        0 <= i <= fields.len(),
    ensures
        match field_at(fields, key, i) {
            Some(k) => i <= k < fields.len() && fields[k].0@ == key && forall|j: int|
                i <= j < k ==> (#[trigger] fields[j]).0@ != key,
            None => forall|j: int| i <= j < fields.len() ==> (#[trigger] fields[j]).0@ != key,
        },
    decreases fields.len() - i,
{
    if i < fields.len() && fields[i].0@ != key {
        lemma_field_at(fields, key, i + 1);
    }
}

/// The value of a field is that of the first field of its name.
pub proof fn lemma_fields_are_found(fields: Vec<(String, BsonValue)>, key: Seq<char>, k: int)
    requires
        0 <= k < fields@.len(),
        fields@[k].0@ == key,
        forall|j: int| 0 <= j < k ==> (#[trigger] fields@[j]).0@ != key,
    ensures
        field(BsonValue::Document(fields), key) == Some(fields@[k].1),
{
    lemma_field_at(fields@, key, 0);
}

proof fn lemma_collections_read(list: Seq<BsonValue>, n: int, database: Seq<char>, k: int)
    requires
        0 <= k < n <= list.len(),
        text_of(field(list[k], "name"@)) is Some,
    ensures
        exists|i: int|
            0 <= i < collections_upto(list, n, database).len() && (#[trigger] collections_upto(
                list,
                n,
                database,
            )[i]).name == text_of(field(list[k], "name"@))->0 && collections_upto(
                list,
                n,
                database,
            )[i].database == database,
    decreases n,
{
    let before = collections_upto(list, n - 1, database);
    let now = collections_upto(list, n, database);
    let name = text_of(field(list[k], "name"@))->0;
    if k < n - 1 {
        lemma_collections_read(list, n - 1, database, k);
        let i = choose|i: int|
            0 <= i < before.len() && (#[trigger] before[i]).name == name && before[i].database == database;
        assert(now[i] == before[i]);
    } else {
        assert(now[before.len() as int].name == name);
    }
}

proof fn lemma_databases_read(list: Seq<BsonValue>, n: int, k: int)
    requires
        0 <= k < n <= list.len(),
        text_of(field(list[k], "name"@)) is Some,
    ensures
        exists|i: int|
            0 <= i < databases_upto(list, n).len() && (#[trigger] databases_upto(list, n)[i]).name
                == text_of(field(list[k], "name"@))->0,
    decreases n,
{
    let before = databases_upto(list, n - 1);
    let now = databases_upto(list, n);
    let name = text_of(field(list[k], "name"@))->0;
    if k < n - 1 {
        lemma_databases_read(list, n - 1, k);
        let i = choose|i: int| 0 <= i < before.len() && (#[trigger] before[i]).name == name;
        assert(now[i] == before[i]);
    } else {
        assert(now[before.len() as int].name == name);
    }
}

/// Every database and every collection that a listing names is read.
pub proof fn lemma_listings_are_read(list: Seq<BsonValue>, database: Seq<char>, k: int)
    requires
        0 <= k < list.len(),
        text_of(field(list[k], "name"@)) is Some,
    ensures
        ({
            let name = text_of(field(list[k], "name"@))->0;
            let collections = collections_upto(list, list.len() as int, database);
            let databases = databases_upto(list, list.len() as int);
            &&& exists|i: int|
                0 <= i < collections.len() && (#[trigger] collections[i]).name == name
                    && collections[i].database == database
            &&& exists|i: int| 0 <= i < databases.len() && (#[trigger] databases[i]).name == name
        }),
{
    lemma_collections_read(list, list.len() as int, database, k);
    lemma_databases_read(list, list.len() as int, k);
}

} // verus!
