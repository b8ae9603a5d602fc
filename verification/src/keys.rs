//! The status view's key bindings, each overridable by a shell parameter of
//! the zshrs host, with the plugin's defaults.

use vstd::prelude::*;
use vstd::string::StringExecFns;

verus! {

/// The value of a setting: what the shell holds, unless that is unset or
/// empty, in which case the default.
pub open spec fn setting_text(found: Option<Seq<char>>, default: Seq<char>) -> Seq<char> {
    match found {
        Some(v) => if v.len() > 0 {
            v
        } else {
            default
        },
        None => default,
    }
}

/// The text of an optional string.
pub open spec fn string_opt(o: Option<String>) -> Option<Seq<char>> {
    match o {
        Some(s) => Some(s@),
        None => None,
    }
}

/// A setting's value from what the shell returned for it.
pub fn setting_or_default(found: Option<String>, default: &str) -> (res: String)
    ensures
        res@ == setting_text(string_opt(found), default@),
{
    match found {
        Some(v) => if v.as_str().is_empty() {
            String::from_str(default)
        } else {
            v
        },
        None => String::from_str(default),
    }
}

/// A setting read through `lookup`, which gives the value of the shell
/// parameter it is asked for (`None` when it is unset): the parameter
/// asked is `key`, and an unset or empty value gives way to `default`.
pub fn cfg<F: Fn(&str) -> Option<String>>(lookup: &F, key: &str, default: &str) -> (res: String)
    requires
        call_requires(*lookup, (key,)),
    ensures
        exists|v: Option<String>|
            #[trigger] call_ensures(*lookup, (key,), v) && res@ == setting_text(string_opt(v), default@),
{
    let found = lookup(key);
    setting_or_default(found, default)
}

/// The key bindings of the status view, as configured (`Alt-M`); fzf wants
/// them lowercase, which `crate::text::lc` gives.
pub struct Keys {
    pub amend: String,
    pub add: String,
    pub add_patch: String,
    pub edit: String,
    pub commit: String,
    pub reset: String,
    pub discard: String,
    pub inspect: String,
    pub select_all: String,
    pub select_none: String,
    pub wrap: String,
    pub size_inc: String,
    pub size_dec: String,
}

impl Keys {
    /// No binding is empty.
    pub open spec fn all_set(&self) -> bool {
        &&& self.amend@.len() > 0
        &&& self.add@.len() > 0
        &&& self.add_patch@.len() > 0
        &&& self.edit@.len() > 0
        &&& self.commit@.len() > 0
        &&& self.reset@.len() > 0
        &&& self.discard@.len() > 0
        &&& self.inspect@.len() > 0
        &&& self.select_all@.len() > 0
        &&& self.select_none@.len() > 0
        &&& self.wrap@.len() > 0
        &&& self.size_inc@.len() > 0
        &&& self.size_dec@.len() > 0
    }

    /// The bindings as the shell configures them: each one read through
    /// `lookup` under its own parameter name from `key_settings_spec()`,
    /// its default standing in when the parameter is unset or empty.
    pub fn new<F: Fn(&str) -> Option<String>>(lookup: &F) -> (keys: Keys)
        requires
            forall|name: &str| call_requires(*lookup, (name,)),
        ensures
            keys.all_set(),
            keys_answered(keys, *lookup),
    {
        proof {
            reveal_strlit("Alt-M");
            reveal_strlit("Alt-S");
            reveal_strlit("Alt-P");
            reveal_strlit("Alt-E");
            reveal_strlit("Alt-C");
            reveal_strlit("Alt-R");
            reveal_strlit("Alt-U");
            reveal_strlit("Alt-I");
            reveal_strlit("Alt-A");
            reveal_strlit("Alt-D");
            reveal_strlit("Alt-W");
            reveal_strlit("Alt-=");
            reveal_strlit("Alt--");
        }
        Keys {
            amend: cfg(lookup, "GIT_FUZZY_STATUS_AMEND_KEY", "Alt-M"),
            add: cfg(lookup, "GIT_FUZZY_STATUS_ADD_KEY", "Alt-S"),
            add_patch: cfg(lookup, "GIT_FUZZY_STATUS_ADD_PATCH_KEY", "Alt-P"),
            edit: cfg(lookup, "GIT_FUZZY_STATUS_EDIT_KEY", "Alt-E"),
            commit: cfg(lookup, "GIT_FUZZY_STATUS_COMMIT_KEY", "Alt-C"),
            reset: cfg(lookup, "GIT_FUZZY_STATUS_RESET_KEY", "Alt-R"),
            discard: cfg(lookup, "GIT_FUZZY_STATUS_DISCARD_KEY", "Alt-U"),
            inspect: cfg(lookup, "GIT_FUZZY_INSPECT_KEY", "Alt-I"),
            select_all: cfg(lookup, "GIT_FUZZY_SELECT_ALL_KEY", "Alt-A"),
            select_none: cfg(lookup, "GIT_FUZZY_SELECT_NONE_KEY", "Alt-D"),
            wrap: cfg(lookup, "GIT_FUZZY_PREVIEW_WRAP_KEY", "Alt-W"),
            size_inc: cfg(lookup, "GIT_FUZZY_PREVIEW_SIZE_INCREASE_KEY", "Alt-="),
            size_dec: cfg(lookup, "GIT_FUZZY_PREVIEW_SIZE_DECREASE_KEY", "Alt--"),
        }
    }
}

/// Each binding's shell parameter and default, in the order of `Keys`'
/// fields.
pub open spec fn key_settings_spec() -> Seq<(Seq<char>, Seq<char>)> {
    seq![
        ("GIT_FUZZY_STATUS_AMEND_KEY"@, "Alt-M"@),
        ("GIT_FUZZY_STATUS_ADD_KEY"@, "Alt-S"@),
        ("GIT_FUZZY_STATUS_ADD_PATCH_KEY"@, "Alt-P"@),
        ("GIT_FUZZY_STATUS_EDIT_KEY"@, "Alt-E"@),
        ("GIT_FUZZY_STATUS_COMMIT_KEY"@, "Alt-C"@),
        ("GIT_FUZZY_STATUS_RESET_KEY"@, "Alt-R"@),
        ("GIT_FUZZY_STATUS_DISCARD_KEY"@, "Alt-U"@),
        ("GIT_FUZZY_INSPECT_KEY"@, "Alt-I"@),
        ("GIT_FUZZY_SELECT_ALL_KEY"@, "Alt-A"@),
        ("GIT_FUZZY_SELECT_NONE_KEY"@, "Alt-D"@),
        ("GIT_FUZZY_PREVIEW_WRAP_KEY"@, "Alt-W"@),
        ("GIT_FUZZY_PREVIEW_SIZE_INCREASE_KEY"@, "Alt-="@),
        ("GIT_FUZZY_PREVIEW_SIZE_DECREASE_KEY"@, "Alt--"@),
    ]
}

/// Binding `i` holds what `lookup` answered for the binding's parameter,
/// or the binding's default where that answer was unset or empty.
pub open spec fn answered<F: Fn(&str) -> Option<String>>(lookup: F, i: int, value: Seq<char>) -> bool {
    exists|name: &str, v: Option<String>|
        #![trigger call_ensures(lookup, (name,), v)]
        name@ == key_settings_spec()[i].0 && call_ensures(lookup, (name,), v)
            && value == setting_text(string_opt(v), key_settings_spec()[i].1)
}

/// Every binding holds what `lookup` answered for its own parameter, or its
/// own default.
pub open spec fn keys_answered<F: Fn(&str) -> Option<String>>(keys: Keys, lookup: F) -> bool {
    &&& answered(lookup, 0, keys.amend@)
    &&& answered(lookup, 1, keys.add@)
    &&& answered(lookup, 2, keys.add_patch@)
    &&& answered(lookup, 3, keys.edit@)
    &&& answered(lookup, 4, keys.commit@)
    &&& answered(lookup, 5, keys.reset@)
    &&& answered(lookup, 6, keys.discard@)
    &&& answered(lookup, 7, keys.inspect@)
    &&& answered(lookup, 8, keys.select_all@)
    &&& answered(lookup, 9, keys.select_none@)
    &&& answered(lookup, 10, keys.wrap@)
    &&& answered(lookup, 11, keys.size_inc@)
    &&& answered(lookup, 12, keys.size_dec@)
}

} // verus!
