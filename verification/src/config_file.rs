//! The configuration as data, and as the YAML text of the configuration file. Tokens are
//! never part of it.

use vstd::prelude::*;
use crate::config::{find_account, lemma_find_account, unique_names, AccountConfig, Config};
use crate::error::{owned, Error, ErrorCode};
use crate::json::{
    field_models, json_get, lemma_field_models, parse_yaml, parsed_yaml, str_field, yaml_string,
    Json, JsonValue,
};
use crate::commands::put;
use crate::text::{eq_ignore_case, is_blank, is_blank_str};

verus! {

broadcast use {vstd::string::group_string_axioms, crate::json::group_json_model};

/// One account as data.
pub open spec fn account_model(a: AccountConfig) -> JsonValue {
    JsonValue::Object(
        seq![
            ("endpoint"@, JsonValue::Str(a.endpoint@)),
            ("identity"@, JsonValue::Str(a.identity@)),
            ("added_at"@, JsonValue::Str(a.added_at@)),
        ],
    )
}

/// The accounts as object members, in order.
pub open spec fn accounts_model(accounts: Seq<(String, AccountConfig)>) -> Seq<(Seq<char>, JsonValue)> {
    Seq::new(accounts.len(), |i: int| (accounts[i].0@, account_model(accounts[i].1)))
}

/// The configuration as data: `{"accounts": {name: {endpoint, identity, added_at}}}`.
pub open spec fn config_model(accounts: Seq<(String, AccountConfig)>) -> JsonValue {
    JsonValue::Object(seq![("accounts"@, JsonValue::Object(accounts_model(accounts)))])
}

/// A string member, or the empty string where it is missing or not a string.
pub open spec fn text_field(v: JsonValue, key: Seq<char>) -> Seq<char> {
    match str_field(v, key) {
        Some(s) => s,
        None => Seq::empty(),
    }
}

/// An account as read: its name, endpoint, identity and time added.
pub open spec fn entry_read(m: (Seq<char>, JsonValue)) -> (Seq<char>, Seq<char>, Seq<char>, Seq<char>) {
    (m.0, text_field(m.1, "endpoint"@), text_field(m.1, "identity"@), text_field(m.1, "added_at"@))
}

/// An account's name and fields, as text.
pub open spec fn entry_view(e: (String, AccountConfig)) -> (Seq<char>, Seq<char>, Seq<char>, Seq<char>) {
    (e.0@, e.1.endpoint@, e.1.identity@, e.1.added_at@)
}

/// The members of `accounts`: none where it is missing, `None` where it is not an object.
pub open spec fn account_members(v: JsonValue) -> Option<Seq<(Seq<char>, JsonValue)>> {
    match json_get(v, "accounts"@) {
        None => Some(Seq::empty()),
        Some(JsonValue::Object(fs)) => Some(fs),
        Some(_) => None,
    }
}

/// Whether configuration data can be read: an object whose `accounts` (if any) maps names,
/// unique ignoring ASCII case, to objects.
pub open spec fn readable(v: JsonValue) -> bool {
    &&& v is Object
    &&& account_members(v) matches Some(fs)
    &&& forall|i: int| 0 <= i < fs.len() ==> (#[trigger] fs[i]).1 is Object
    &&& forall|i: int, j: int|
        0 <= i < fs.len() && 0 <= j < fs.len() && i != j ==> !eq_ignore_case(
            #[trigger] fs[i].0,
            #[trigger] fs[j].0,
        )
}

/// Whether `accounts` is what reading the data `v` gives: one account per member of
/// `accounts`, in order.
pub open spec fn reads_as(v: JsonValue, accounts: Seq<(String, AccountConfig)>) -> bool {
    match account_members(v) {
        Some(fs) => accounts.map_values(|e: (String, AccountConfig)| entry_view(e)) == fs.map_values(
            |m: (Seq<char>, JsonValue)| entry_read(m),
        ),
        None => false,
    }
}

/// The message for configuration data that cannot be read.
pub const NOT_READABLE: &'static str = "The configuration file is not valid.";

impl Config {
    /// The configuration as data (see `config_model`).
    pub fn to_json(&self) -> (r: Json)
        ensures
            r.model() == config_model(self.accounts@),
    {
        let mut members: Vec<(String, Json)> = Vec::new();
        for i in 0..self.accounts.len()
            invariant
                field_models(members@) == accounts_model(self.accounts@.take(i as int)),
        {
            proof {
                lemma_field_models(members@);
            }
            let (name, a) = &self.accounts[i];
            let mut fs: Vec<(String, Json)> = Vec::new();
            proof {
                lemma_field_models(fs@);
            }
            put(&mut fs, "endpoint", Json::text(a.endpoint.as_str()));
            put(&mut fs, "identity", Json::text(a.identity.as_str()));
            put(&mut fs, "added_at", Json::text(a.added_at.as_str()));
            assert(field_models(fs@) =~= seq![
                ("endpoint"@, JsonValue::Str(a.endpoint@)),
                ("identity"@, JsonValue::Str(a.identity@)),
                ("added_at"@, JsonValue::Str(a.added_at@)),
            ]);
            let entry = Json::Object(fs);
            assert(entry.model() == account_model(*a));
            let ghost before = members@;
            members.push((owned(name.as_str()), entry));
            proof {
                lemma_field_models(members@);
                assert(field_models(members@) =~= field_models(before).push((name@, account_model(*a))));
                assert(accounts_model(self.accounts@.take(i + 1)) =~= accounts_model(
                    self.accounts@.take(i as int),
                ).push((name@, account_model(*a))));
            }
        }
        assert(self.accounts@.take(self.accounts@.len() as int) =~= self.accounts@);
        let mut root: Vec<(String, Json)> = Vec::new();
        let ghost ms = field_models(members@);
        root.push((owned("accounts"), Json::Object(members)));
        proof {
            lemma_field_models(root@);
            reveal_strlit("accounts");
        }
        assert(field_models(root@) =~= seq![("accounts"@, JsonValue::Object(ms))]);
        Json::Object(root)
    }

    /// Reads configuration data: each member of `accounts` becomes an account, in order,
    /// with missing fields empty. Anything else than readable data (see `readable`) is an
    /// error.
    pub fn from_json(v: &Json) -> (r: Result<Config, Error>)
        ensures
            r is Ok <==> readable(v.model()),
            r matches Ok(c) ==> c.wf() && reads_as(v.model(), c.accounts@),
            r matches Err(e) ==> e.code == ErrorCode::Error && e.message@ == NOT_READABLE@,
    {
        let fields = match v {
            Json::Object(fs) => fs,
            _ => return Err(Error::other(owned(NOT_READABLE))),
        };
        let ghost vm = v.model();
        proof {
            lemma_field_models(fields@);
        }
        let members: &Vec<(String, Json)> = match v.get("accounts") {
            None => {
                assert(account_members(vm) == Some(Seq::<(Seq<char>, JsonValue)>::empty()));
                let c = Config::new();
                assert(c.accounts@.map_values(|e: (String, AccountConfig)| entry_view(e)) =~= Seq::<
                    (Seq<char>, JsonValue),
                >::empty().map_values(|m: (Seq<char>, JsonValue)| entry_read(m)));
                return Ok(c);
            },
            Some(Json::Object(ms)) => ms,
            Some(_) => return Err(Error::other(owned(NOT_READABLE))),
        };
        let ghost fs = field_models(members@);
        assert(account_members(vm) == Some(fs));
        proof {
            lemma_field_models(members@);
        }
        let mut c = Config::new();
        for i in 0..members.len()
            invariant
                fs == field_models(members@),
                fs.len() == members@.len(),
                forall|j: int|
                    0 <= j < members@.len() ==> fs[j] == (#[trigger] members@[j].0@, members@[j].1.model()),
                account_members(vm) == Some(fs),
                vm == v.model(),
                vm is Object,
                c.wf(),
                c.accounts@.len() == i,
                forall|j: int| 0 <= j < i ==> fs[j].1 is Object,
                forall|j: int, k: int|
                    0 <= j < i && 0 <= k < i && j != k ==> !eq_ignore_case(
                        #[trigger] fs[j].0,
                        #[trigger] fs[k].0,
                    ),
                forall|j: int| 0 <= j < i ==> #[trigger] entry_view(c.accounts@[j]) == entry_read(fs[j]),
        {
            let (name, x) = &members[i];
            let is_object = match x {
                Json::Object(_) => true,
                _ => false,
            };
            assert(fs[i as int].1 == x.model());
            if !is_object {
                assert(!(fs[i as int].1 is Object));
                assert(!readable(vm));
                return Err(Error::other(owned(NOT_READABLE)));
            }
            proof {
                lemma_find_account(c.accounts@, name@);
            }
            if c.position(name.as_str()).is_some() {
                proof {
                    let k = find_account(c.accounts@, name@).unwrap();
                    assert(k < i);
                    assert(entry_view(c.accounts@[k]) == entry_read(fs[k]));
                    assert(name@ == fs[i as int].0);
                    assert(eq_ignore_case(fs[k].0, fs[i as int].0));
                    crate::config::lemma_eq_ignore_case_sym(fs[k].0, fs[i as int].0);
                    assert(!readable(vm));
                }
                return Err(Error::other(owned(NOT_READABLE)));
            }
            let endpoint = text_of(x, "endpoint");
            let identity = text_of(x, "identity");
            let added_at = text_of(x, "added_at");
            let ghost before = c.accounts@;
            let entry = (owned(name.as_str()), AccountConfig { endpoint, identity, added_at });
            assert(entry_view(entry) == entry_read(fs[i as int]));
            c.insert(entry.0, entry.1);
            proof {
                assert(c.accounts@ == before.push(entry));
                assert forall|j: int, k: int|
                    0 <= j < i + 1 && 0 <= k < i + 1 && j != k implies !eq_ignore_case(
                    #[trigger] fs[j].0,
                    #[trigger] fs[k].0,
                ) by {
                    if j == i {
                        crate::config::lemma_eq_ignore_case_sym(fs[k].0, fs[j].0);
                        assert(entry_view(c.accounts@[k]) == entry_read(fs[k]));
                    } else if k == i {
                        assert(entry_view(c.accounts@[j]) == entry_read(fs[j]));
                    }
                }
                assert forall|j: int| 0 <= j < i + 1 implies #[trigger] entry_view(c.accounts@[j])
                    == entry_read(fs[j]) by {
                    if j < i {
                        assert(c.accounts@[j] == before[j]);
                    }
                }
            }
        }
        assert(c.accounts@.map_values(|e: (String, AccountConfig)| entry_view(e)) =~= fs.map_values(
            |m: (Seq<char>, JsonValue)| entry_read(m),
        ));
        Ok(c)
    }
}

/// The message when the configuration cannot be written as text.
pub const NOT_WRITABLE: &'static str = "Could not write the configuration.";

impl Config {
    /// The text of the configuration file: the configuration's data as YAML.
    pub fn to_text(&self) -> (r: Result<String, Error>)
        ensures
            match yaml_string(config_model(self.accounts@)) {
                Some(t) => r matches Ok(s) && s@ == t,
                None => r matches Err(e) && e.code == ErrorCode::Error && e.message@ == NOT_WRITABLE@,
            },
    {
        match self.to_json().to_yaml_string() {
            Some(t) => Ok(t),
            None => Err(Error::other(owned(NOT_WRITABLE))),
        }
    }

    /// Reads the configuration file's text: a blank file is an empty configuration; otherwise
    /// the text is read as YAML (of which JSON is a part) and the data as by `from_json`.
    pub fn from_text(text: &str) -> (r: Result<Config, Error>)
        ensures
            is_blank(text@) ==> (r matches Ok(c) && c.accounts@.len() == 0),
            !is_blank(text@) ==> match parsed_yaml(text@) {
                None => r matches Err(e) && e.code == ErrorCode::Error && e.message@ == NOT_READABLE@,
                Some(v) => (r is Ok <==> readable(v)) && (r matches Ok(c) ==> c.wf() && reads_as(
                    v,
                    c.accounts@,
                )) && (r matches Err(e) ==> e.code == ErrorCode::Error && e.message@ == NOT_READABLE@),
            },
    {
        if is_blank_str(text) {
            return Ok(Config::new());
        }
        match parse_yaml(text) {
            Some(v) => Config::from_json(&v),
            None => Err(Error::other(owned(NOT_READABLE))),
        }
    }
}

/// The string member `key` of an object, or the empty string.
fn text_of(x: &Json, key: &str) -> (r: String)
    ensures
        r@ == text_field(x.model(), key@),
{
    match x.get(key) {
        Some(y) => match y.as_str() {
            Some(s) => owned(s.as_str()),
            None => String::new(),
        },
        None => String::new(),
    }
}

/// What is written is read back: the data of a configuration with unique names is readable,
/// and reading it gives back the same accounts, in order.
pub proof fn lemma_config_round_trip(accounts: Seq<(String, AccountConfig)>)
    requires
        unique_names(accounts),
    ensures
        readable(config_model(accounts)),
        reads_as(config_model(accounts), accounts),
{
    reveal_strlit("accounts");
    reveal_strlit("endpoint");
    reveal_strlit("identity");
    reveal_strlit("added_at");
    let fs = accounts_model(accounts);
    assert(json_get(config_model(accounts), "accounts"@) == Some(JsonValue::Object(fs)));
    assert forall|i: int| 0 <= i < accounts.len() implies #[trigger] entry_read(fs[i]) == entry_view(
        accounts[i],
    ) by {
        let m = account_model(accounts[i].1);
        assert("endpoint"@[0] == 'e' && "identity"@[0] == 'i' && "added_at"@[0] == 'a');
        reveal_with_fuel(crate::json::field_get, 4);
    }
    assert(fs.map_values(|m: (Seq<char>, JsonValue)| entry_read(m)) =~= accounts.map_values(
        |e: (String, AccountConfig)| entry_view(e),
    ));
}

} // verus!
