//! The user credential file's document form: rendering a store to its
//! YAML-shaped lines and parsing such lines back. Parsing inverts rendering
//! exactly, so a store survives a save and a reload with its hash mapping and
//! timestamps unchanged.

use vstd::prelude::*;

use crate::strutil::{push_char, spec_views, substr};
use crate::user_config::{HashType, UserConfig, UserEntry};

verus! {

broadcast use vstd::string::group_string_axioms;

/// The mathematical content of one stored entry.
pub struct UserEntryView {
    pub password_hash: Seq<char>,
    pub salt: Option<Seq<char>>,
    pub created_at: Seq<char>,
    pub last_modified: Seq<char>,
    pub enabled: bool,
}

pub open spec fn spec_entry_view(e: UserEntry) -> UserEntryView {
    UserEntryView {
        password_hash: e.password_hash@,
        salt: match e.salt {
            Some(s) => Some(s@),
            None => None,
        },
        created_at: e.created_at@,
        last_modified: e.last_modified@,
        enabled: e.enabled,
    }
}

pub open spec fn spec_user_views(users: Seq<(String, UserEntry)>) -> Seq<
    (Seq<char>, UserEntryView),
> {
    users.map_values(|p: (String, UserEntry)| (p.0@, spec_entry_view(p.1)))
}

/// The file name of a scheme.
pub open spec fn spec_hash_type_name(ht: HashType) -> Seq<char> {
    match ht {
        HashType::Argon2 => "argon2"@,
        HashType::Bcrypt => "bcrypt"@,
        HashType::Scrypt => "scrypt"@,
    }
}

pub open spec fn spec_parse_hash_type_name(s: Seq<char>) -> Option<HashType> {
    if s == "argon2"@ {
        Some(HashType::Argon2)
    } else if s == "bcrypt"@ {
        Some(HashType::Bcrypt)
    } else if s == "scrypt"@ {
        Some(HashType::Scrypt)
    } else {
        None
    }
}

/// The six lines one entry renders to.
pub open spec fn spec_render_entry(name: Seq<char>, e: UserEntryView) -> Seq<Seq<char>> {
    seq![
        "  "@ + name + ":"@,
        "    password_hash: "@ + e.password_hash,
        "    salt: "@ + (match e.salt {
            Some(s) => s,
            None => "~"@,
        }),
        "    created_at: "@ + e.created_at,
        "    last_modified: "@ + e.last_modified,
        if e.enabled {
            "    enabled: true"@
        } else {
            "    enabled: false"@
        },
    ]
}

pub open spec fn spec_render_entries(users: Seq<(Seq<char>, UserEntryView)>) -> Seq<Seq<char>>
    decreases users.len(),
{
    if users.len() == 0 {
        Seq::<Seq<char>>::empty()
    } else {
        spec_render_entry(users[0].0, users[0].1) + spec_render_entries(users.skip(1))
    }
}

/// The whole document: the scheme line, the `users:` line, then the entries.
pub open spec fn spec_render_file(ht: HashType, users: Seq<(Seq<char>, UserEntryView)>) -> Seq<
    Seq<char>,
> {
    seq!["hash_type: "@ + spec_hash_type_name(ht), "users:"@] + spec_render_entries(users)
}

/// What six lines parse to, if they have an entry's exact shape.
pub open spec fn spec_parse_entry(
    l0: Seq<char>,
    l1: Seq<char>,
    l2: Seq<char>,
    l3: Seq<char>,
    l4: Seq<char>,
    l5: Seq<char>,
) -> Option<(Seq<char>, UserEntryView)> {
    if l0.len() >= 3 && l0.take(2) == "  "@ && l0.last() == ':' && l1.len() >= 19 && l1.take(19)
        == "    password_hash: "@ && l2.len() >= 10 && l2.take(10) == "    salt: "@ && l3.len()
        >= 16 && l3.take(16) == "    created_at: "@ && l4.len() >= 19 && l4.take(19)
        == "    last_modified: "@ && (l5 == "    enabled: true"@ || l5 == "    enabled: false"@) {
        let salt_text = l2.skip(10);
        Some(
            (
                l0.subrange(2, l0.len() - 1),
                UserEntryView {
                    password_hash: l1.skip(19),
                    salt: if salt_text == "~"@ || salt_text == "null"@ {
                        None
                    } else {
                        Some(salt_text)
                    },
                    created_at: l3.skip(16),
                    last_modified: l4.skip(19),
                    enabled: l5 == "    enabled: true"@,
                },
            ),
        )
    } else {
        None
    }
}

pub open spec fn spec_parse_entries(lines: Seq<Seq<char>>) -> Option<
    Seq<(Seq<char>, UserEntryView)>,
>
    decreases lines.len(),
{
    if lines.len() == 0 {
        Some(Seq::<(Seq<char>, UserEntryView)>::empty())
    } else if lines.len() < 6 {
        None
    } else {
        match spec_parse_entry(lines[0], lines[1], lines[2], lines[3], lines[4], lines[5]) {
            Some(p) => match spec_parse_entries(lines.skip(6)) {
                Some(rest) => Some(seq![p] + rest),
                None => None,
            },
            None => None,
        }
    }
}

pub open spec fn spec_names_unique(users: Seq<(Seq<char>, UserEntryView)>) -> bool {
    forall|i: int, j: int|
        0 <= i < j < users.len() ==> (#[trigger] users[i]).0 != (#[trigger] users[j]).0
}

/// What a document parses to: the scheme, then the entries, whose names must
/// be unique.
pub open spec fn spec_parse_file(lines: Seq<Seq<char>>) -> Option<
    (HashType, Seq<(Seq<char>, UserEntryView)>),
> {
    if lines.len() >= 2 && lines[0].len() >= 11 && lines[0].take(11) == "hash_type: "@
        && spec_parse_hash_type_name(lines[0].skip(11)) is Some && lines[1] == "users:"@ {
        match spec_parse_entries(lines.skip(2)) {
            Some(users) => if spec_names_unique(users) {
                Some((spec_parse_hash_type_name(lines[0].skip(11)).unwrap(), users))
            } else {
                None
            },
            None => None,
        }
    } else {
        None
    }
}

/// The one representation restriction: a stored salt must not read as the
/// document's spellings of an absent salt (`~` or `null`).
pub open spec fn spec_renderable(users: Seq<(Seq<char>, UserEntryView)>) -> bool {
    forall|i: int|
        0 <= i < users.len() ==> ((#[trigger] users[i]).1.salt != Some("~"@) && users[i].1.salt
            != Some("null"@))
}

proof fn lemma_prefix_literals()
    ensures
        "  "@.len() == 2,
        ":"@.len() == 1,
        ":"@[0] == ':',
        "    password_hash: "@.len() == 19,
        "    salt: "@.len() == 10,
        "~"@.len() == 1,
        "null"@.len() == 4,
        "    created_at: "@.len() == 16,
        "    last_modified: "@.len() == 19,
        "    enabled: true"@.len() == 17,
        "    enabled: false"@.len() == 18,
        "hash_type: "@.len() == 11,
        "users:"@.len() == 6,
{
    reveal_strlit("  ");
    reveal_strlit(":");
    reveal_strlit("    password_hash: ");
    reveal_strlit("    salt: ");
    reveal_strlit("~");
    reveal_strlit("null");
    reveal_strlit("    created_at: ");
    reveal_strlit("    last_modified: ");
    reveal_strlit("    enabled: true");
    reveal_strlit("    enabled: false");
    reveal_strlit("hash_type: ");
    reveal_strlit("users:");
}

proof fn lemma_parse_render_entry(name: Seq<char>, e: UserEntryView)
    requires
        e.salt != Some("~"@),
        e.salt != Some("null"@),
    ensures
        ({
            let lines = spec_render_entry(name, e);
            spec_parse_entry(lines[0], lines[1], lines[2], lines[3], lines[4], lines[5]) == Some(
                (name, e),
            )
        }),
{
    lemma_prefix_literals();
    let lines = spec_render_entry(name, e);
    let l0 = lines[0];
    assert(l0.take(2) =~= "  "@);
    assert(l0.last() == ':');
    assert(l0.subrange(2, l0.len() - 1) =~= name);
    assert(lines[1].take(19) =~= "    password_hash: "@);
    assert(lines[1].skip(19) =~= e.password_hash);
    assert(lines[2].take(10) =~= "    salt: "@);
    match e.salt {
        Some(s) => {
            assert(lines[2].skip(10) =~= s);
        },
        None => {
            assert(lines[2].skip(10) =~= "~"@);
        },
    }
    assert(lines[3].take(16) =~= "    created_at: "@);
    assert(lines[3].skip(16) =~= e.created_at);
    assert(lines[4].take(19) =~= "    last_modified: "@);
    assert(lines[4].skip(19) =~= e.last_modified);
    if e.enabled {
        assert(lines[5] == "    enabled: true"@);
        assert(lines[5] != "    enabled: false"@) by {
            assert(lines[5].len() == 17);
        }
    } else {
        assert(lines[5] == "    enabled: false"@);
        assert(lines[5] != "    enabled: true"@) by {
            assert(lines[5].len() == 18);
        }
    }
}

proof fn lemma_parse_render_entries(users: Seq<(Seq<char>, UserEntryView)>)
    requires
        spec_renderable(users),
    ensures
        spec_parse_entries(spec_render_entries(users)) == Some(users),
    decreases users.len(),
{
    if users.len() == 0 {
        assert(spec_render_entries(users) =~= Seq::<Seq<char>>::empty());
    } else {
        let head = spec_render_entry(users[0].0, users[0].1);
        let tail = spec_render_entries(users.skip(1));
        let lines = spec_render_entries(users);
        assert(lines == head + tail);
        assert(lines.len() >= 6);
        assert(lines[0] == head[0] && lines[1] == head[1] && lines[2] == head[2] && lines[3]
            == head[3] && lines[4] == head[4] && lines[5] == head[5]);
        lemma_parse_render_entry(users[0].0, users[0].1);
        assert(forall|i: int|
            0 <= i < users.skip(1).len() ==> #[trigger] users.skip(1)[i] == users[i + 1]);
        lemma_parse_render_entries(users.skip(1));
        assert(lines.skip(6) =~= tail);
        assert(seq![users[0]] + users.skip(1) =~= users);
    }
}

/// Round trip: a document rendered from any store whose salts avoid the
/// reserved tilde, and whose usernames are unique, parses back to exactly
/// the same scheme and entries — the hash mapping and the timestamps are
/// preserved.
pub proof fn lemma_user_file_round_trip(ht: HashType, users: Seq<(Seq<char>, UserEntryView)>)
    requires
        spec_renderable(users),
        spec_names_unique(users),
    ensures
        spec_parse_file(spec_render_file(ht, users)) == Some((ht, users)),
{
    lemma_prefix_literals();
    let lines = spec_render_file(ht, users);
    assert(lines[0].take(11) =~= "hash_type: "@);
    assert(lines[0].skip(11) =~= spec_hash_type_name(ht));
    assert(spec_parse_hash_type_name(spec_hash_type_name(ht)) == Some(ht)) by {
        reveal_strlit("argon2");
        reveal_strlit("bcrypt");
        reveal_strlit("scrypt");
        assert("argon2"@[0] == 'a');
        assert("bcrypt"@[0] == 'b');
        assert("scrypt"@[0] == 's');
    }
    assert(lines[1] == "users:"@);
    assert(lines.skip(2) =~= spec_render_entries(users));
    lemma_parse_render_entries(users);
}

/// The store-level reading of the round trip: any store with unique
/// usernames whose salts avoid the reserved tilde renders to a document that
/// parses back to the same scheme and the same entries.
pub proof fn lemma_store_document_round_trip(c: UserConfig)
    requires
        c.wf(),
        spec_renderable(spec_user_views(c.users@)),
    ensures
        spec_parse_file(spec_render_file(c.hash_type, spec_user_views(c.users@))) == Some(
            (c.hash_type, spec_user_views(c.users@)),
        ),
{
    let vs = spec_user_views(c.users@);
    assert forall|i: int, j: int| 0 <= i < j < vs.len() implies (#[trigger] vs[i]).0 != (
    #[trigger] vs[j]).0 by {
        assert(c.users@[i].0@ != c.users@[j].0@);
    }
    lemma_user_file_round_trip(c.hash_type, vs);
}

/// Renders a store to its document lines.
pub fn render_user_file(c: &UserConfig) -> (lines: Vec<String>)
    ensures
        spec_views(lines@) == spec_render_file(c.hash_type, spec_user_views(c.users@)),
{
    let ghost views = spec_user_views(c.users@);
    let mut lines: Vec<String> = Vec::new();
    let mut header = String::from_str("hash_type: ");
    match c.hash_type {
        HashType::Argon2 => header.append("argon2"),
        HashType::Bcrypt => header.append("bcrypt"),
        HashType::Scrypt => header.append("scrypt"),
    }
    lines.push(header);
    lines.push(String::from_str("users:"));
    proof {
        assert(spec_views(lines@) =~~= seq![
            "hash_type: "@ + spec_hash_type_name(c.hash_type),
            "users:"@,
        ]);
        assert(spec_render_entries(views.take(0)) =~= Seq::<Seq<char>>::empty());
    }
    let n = c.users.len();
    for i in 0..n
        invariant
            n == c.users@.len(),
            views == spec_user_views(c.users@),
            spec_views(lines@) =~~= seq![
                "hash_type: "@ + spec_hash_type_name(c.hash_type),
                "users:"@,
            ] + spec_render_entries(views.take(i as int)),
    {
        let name = &c.users[i].0;
        let entry = &c.users[i].1;
        let ghost prior = lines@;
        proof {
            assert(views[i as int] == (c.users@[i as int].0@, spec_entry_view(
                c.users@[i as int].1,
            )));
        }

        let mut l0 = String::from_str("  ");
        l0.append(name.as_str());
        l0.append(":");
        lines.push(l0);

        let mut l1 = String::from_str("    password_hash: ");
        l1.append(entry.password_hash.as_str());
        lines.push(l1);

        let mut l2 = String::from_str("    salt: ");
        match &entry.salt {
            Some(s) => l2.append(s.as_str()),
            None => l2.append("~"),
        }
        lines.push(l2);

        let mut l3 = String::from_str("    created_at: ");
        l3.append(entry.created_at.as_str());
        lines.push(l3);

        let mut l4 = String::from_str("    last_modified: ");
        l4.append(entry.last_modified.as_str());
        lines.push(l4);

        if entry.enabled {
            lines.push(String::from_str("    enabled: true"));
        } else {
            lines.push(String::from_str("    enabled: false"));
        }

        proof {
            lemma_render_entries_snoc(views, i as int);
            let ev = views[i as int];
            let rendered = spec_render_entry(ev.0, ev.1);
            let base = prior.len() as int;
            assert(lines@.len() == prior.len() + 6);
            assert(forall|k: int| 0 <= k < base ==> #[trigger] lines@[k] == prior[k]);
            assert(lines@[base]@ =~= rendered[0]);
            assert(lines@[base + 1]@ =~= rendered[1]);
            assert(lines@[base + 2]@ =~= rendered[2]);
            assert(lines@[base + 3]@ =~= rendered[3]);
            assert(lines@[base + 4]@ =~= rendered[4]);
            assert(lines@[base + 5]@ =~= rendered[5]);
            assert(spec_views(prior).len() == prior.len());
            assert(spec_views(lines@).len() == lines@.len());
            assert(spec_render_entries(views.take(i as int)).len() == prior.len() - 2);
            assert(forall|k: int|
                0 <= k < base ==> #[trigger] spec_views(prior)[k] == prior[k]@);
            assert(forall|k: int|
                0 <= k < lines@.len() ==> #[trigger] spec_views(lines@)[k] == lines@[k]@);
            let header = seq!["hash_type: "@ + spec_hash_type_name(c.hash_type), "users:"@];
            let target = header + spec_render_entries(views.take(i + 1));
            assert(spec_render_entries(views.take(i + 1)) == spec_render_entries(
                views.take(i as int),
            ) + rendered);
            assert(target.len() == lines@.len());
            assert forall|k: int| 0 <= k < target.len() implies #[trigger] spec_views(lines@)[k]
                == target[k] by {
                if k < base {
                    assert(spec_views(lines@)[k] == prior[k]@);
                    assert(spec_views(prior)[k] == target[k]);
                } else {
                    assert(target[k] == rendered[k - base]);
                    assert(spec_views(lines@)[k] == lines@[k]@);
                }
            }
            assert(spec_views(lines@) =~~= target);
        }
    }
    proof {
        assert(views.take(n as int) =~= views);
        assert(spec_views(lines@) =~~= spec_render_file(c.hash_type, views));
    }
    lines
}

/// Appending one entry to the rendered list appends its six lines.
proof fn lemma_render_entries_snoc(users: Seq<(Seq<char>, UserEntryView)>, i: int)
    requires
        0 <= i < users.len(),
    ensures
        spec_render_entries(users.take(i + 1)) == spec_render_entries(users.take(i))
            + spec_render_entry(users[i].0, users[i].1),
    decreases i,
{
    if i == 0 {
        assert(users.take(1)[0] == users[0]);
        assert(users.take(1).skip(1) =~= Seq::<(Seq<char>, UserEntryView)>::empty());
        assert(spec_render_entries(Seq::<(Seq<char>, UserEntryView)>::empty())
            =~= Seq::<Seq<char>>::empty());
        assert(spec_render_entries(users.take(1)) == spec_render_entry(
            users.take(1)[0].0,
            users.take(1)[0].1,
        ) + spec_render_entries(users.take(1).skip(1)));
        assert(spec_render_entries(users.take(0)) =~= Seq::<Seq<char>>::empty());
        assert(spec_render_entries(users.take(1)) =~= spec_render_entry(users[0].0, users[0].1));
    } else {
        assert(forall|k: int|
            0 <= k < users.skip(1).len() ==> #[trigger] users.skip(1)[k] == users[k + 1]);
        lemma_render_entries_snoc(users.skip(1), i - 1);
        assert(users.take(i + 1)[0] == users[0]);
        assert(users.take(i)[0] == users[0]);
        assert(users.take(i + 1).skip(1) =~= users.skip(1).take(i));
        assert(users.take(i).skip(1) =~= users.skip(1).take(i - 1));
        assert(users.skip(1)[i - 1] == users[i]);
        assert(spec_render_entries(users.take(i + 1)) == spec_render_entry(users[0].0, users[0].1)
            + spec_render_entries(users.skip(1).take(i)));
        assert(spec_render_entries(users.take(i)) == spec_render_entry(users[0].0, users[0].1)
            + spec_render_entries(users.skip(1).take(i - 1)));
        assert((spec_render_entry(users[0].0, users[0].1) + spec_render_entries(
            users.skip(1).take(i - 1),
        )) + spec_render_entry(users[i].0, users[i].1) =~= spec_render_entry(
            users[0].0,
            users[0].1,
        ) + (spec_render_entries(users.skip(1).take(i - 1)) + spec_render_entry(
            users[i].0,
            users[i].1,
        )));
    }
}

/// Parses the entry groups that start at line `i`.
fn parse_entries_from(lines: &Vec<String>, i: usize) -> (r: Option<Vec<(String, UserEntry)>>)
    requires
        i <= lines@.len(),
    ensures
        match r {
            Some(v) => spec_parse_entries(spec_views(lines@).skip(i as int)) == Some(
                spec_user_views(v@),
            ),
            None => spec_parse_entries(spec_views(lines@).skip(i as int)) is None,
        },
    decreases lines@.len() - i,
{
    let n = lines.len();
    let ghost rest = spec_views(lines@).skip(i as int);
    if i == n {
        let v: Vec<(String, UserEntry)> = Vec::new();
        proof {
            assert(rest =~= Seq::<Seq<char>>::empty());
            assert(spec_user_views(v@) =~= Seq::<(Seq<char>, UserEntryView)>::empty());
        }
        return Some(v);
    }
    if n - i < 6 {
        return None;
    }
    proof {
        assert(rest[0] == lines@[i as int]@);
        assert(rest[1] == lines@[i as int + 1]@);
        assert(rest[2] == lines@[i as int + 2]@);
        assert(rest[3] == lines@[i as int + 3]@);
        assert(rest[4] == lines@[i as int + 4]@);
        assert(rest[5] == lines@[i as int + 5]@);
    }

    let l0 = &lines[i];
    let n0 = l0.as_str().unicode_len();
    if !(n0 >= 3 && substr(l0.as_str(), 0, 2) == String::from_str("  ") && l0.as_str().get_char(
        n0 - 1,
    ) == ':') {
        return None;
    }
    let name = substr(l0.as_str(), 2, n0 - 1);

    let l1 = &lines[i + 1];
    let n1 = l1.as_str().unicode_len();
    if !(n1 >= 19 && substr(l1.as_str(), 0, 19) == String::from_str("    password_hash: ")) {
        return None;
    }
    let password_hash = substr(l1.as_str(), 19, n1);

    let l2 = &lines[i + 2];
    let n2 = l2.as_str().unicode_len();
    if !(n2 >= 10 && substr(l2.as_str(), 0, 10) == String::from_str("    salt: ")) {
        return None;
    }
    let salt_text = substr(l2.as_str(), 10, n2);
    let salt = if salt_text == String::from_str("~") || salt_text == String::from_str("null") {
        None
    } else {
        Some(salt_text)
    };

    let l3 = &lines[i + 3];
    let n3 = l3.as_str().unicode_len();
    if !(n3 >= 16 && substr(l3.as_str(), 0, 16) == String::from_str("    created_at: ")) {
        return None;
    }
    let created_at = substr(l3.as_str(), 16, n3);

    let l4 = &lines[i + 4];
    let n4 = l4.as_str().unicode_len();
    if !(n4 >= 19 && substr(l4.as_str(), 0, 19) == String::from_str("    last_modified: ")) {
        return None;
    }
    let last_modified = substr(l4.as_str(), 19, n4);

    let l5 = &lines[i + 5];
    let enabled;
    if *l5 == String::from_str("    enabled: true") {
        enabled = true;
    } else if *l5 == String::from_str("    enabled: false") {
        enabled = false;
    } else {
        return None;
    }

    proof {
        assert(rest.skip(6) =~= spec_views(lines@).skip(i as int + 6));
    }
    let mut restv = match parse_entries_from(lines, i + 6) {
        Some(v) => v,
        None => {
            return None;
        },
    };
    let entry = UserEntry { password_hash, salt, created_at, last_modified, enabled };
    restv.insert(0, (name, entry));
    proof {
        let p = spec_parse_entry(rest[0], rest[1], rest[2], rest[3], rest[4], rest[5]).unwrap();
        assert(spec_user_views(restv@)[0] == p);
        assert(spec_user_views(restv@) =~= seq![p] + spec_user_views(restv@.skip(1)));
        assert(restv@.skip(1) =~= restv@.subrange(1, restv@.len() as int));
        assert(spec_user_views(restv@.skip(1)) =~= spec_parse_entries(rest.skip(6)).unwrap());
    }
    Some(restv)
}

/// Parses a document back to a store; the result carries the unique-username
/// invariant.
pub fn parse_user_file(lines: &Vec<String>) -> (r: Option<UserConfig>)
    ensures
        match r {
            Some(c) => spec_parse_file(spec_views(lines@)) == Some(
                (c.hash_type, spec_user_views(c.users@)),
            ) && c.wf(),
            None => spec_parse_file(spec_views(lines@)) is None,
        },
{
    if lines.len() < 2 {
        return None;
    }
    let l0 = &lines[0];
    let n0 = l0.as_str().unicode_len();
    if !(n0 >= 11 && substr(l0.as_str(), 0, 11) == String::from_str("hash_type: ")) {
        return None;
    }
    let ht_name = substr(l0.as_str(), 11, n0);
    let hash_type = if ht_name == String::from_str("argon2") {
        HashType::Argon2
    } else if ht_name == String::from_str("bcrypt") {
        HashType::Bcrypt
    } else if ht_name == String::from_str("scrypt") {
        HashType::Scrypt
    } else {
        proof {
            reveal_strlit("argon2");
            reveal_strlit("bcrypt");
            reveal_strlit("scrypt");
        }
        return None;
    };
    proof {
        reveal_strlit("argon2");
        reveal_strlit("bcrypt");
        reveal_strlit("scrypt");
        assert("argon2"@[0] == 'a');
        assert("bcrypt"@[0] == 'b');
        assert("scrypt"@[0] == 's');
    }
    if !(*(&lines[1]) == String::from_str("users:")) {
        return None;
    }
    let users = match parse_entries_from(lines, 2) {
        Some(v) => v,
        None => {
            return None;
        },
    };
    // The store is a mapping: duplicate names make the document invalid.
    if !entry_names_unique(&users) {
        return None;
    }
    Some(UserConfig { hash_type, users })
}

/// Whether no username repeats.
fn entry_names_unique(users: &Vec<(String, UserEntry)>) -> (r: bool)
    ensures
        r == spec_names_unique(spec_user_views(users@)),
        r == forall|p: int, q: int|
            0 <= p < q < users@.len() ==> (#[trigger] users@[p]).0@ != (#[trigger] users@[q]).0@,
{
    let n = users.len();
    for i in 0..n
        invariant
            n == users@.len(),
            forall|p: int, q: int|
                0 <= p < q < i ==> (#[trigger] users@[p]).0@ != (#[trigger] users@[q]).0@,
    {
        for j in 0..i
            invariant
                n == users@.len(),
                i < n,
                forall|p: int, q: int|
                    0 <= p < q < i ==> (#[trigger] users@[p]).0@ != (#[trigger] users@[q]).0@,
                forall|p: int|
                    0 <= p < j ==> (#[trigger] users@[p]).0@ != users@[i as int].0@,
        {
            if users[j].0 == users[i].0 {
                proof {
                    let vs = spec_user_views(users@);
                    assert(vs[j as int].0 == vs[i as int].0);
                    assert(!spec_names_unique(vs));
                }
                return false;
            }
        }
    }
    proof {
        let vs = spec_user_views(users@);
        assert forall|p: int, q: int| 0 <= p < q < vs.len() implies (#[trigger] vs[p]).0 != (
        #[trigger] vs[q]).0 by {
            assert(users@[p].0@ != users@[q].0@);
        }
    }
    true
}

} // verus!
