//! The MCP server settings stored in `preference/mcp-servers.json`, and how
//! the file is brought into being on first start.

use vstd::prelude::*;

use crate::text::str_chars;

verus! {

pub const MCP_SERVERS_CONFIG_PATH: &'static str = "preference/mcp-servers.json";

/// The file name used before settings moved under `preference/`.
pub const LEGACY_MCP_SERVERS_CONFIG_PATH: &'static str = "mcp-servers.json";

/// The configured MCP servers, by name. A well-formed configuration (see
/// `well_formed`, kept by `default_config` and `insert`) lists each name
/// once, in ascending name order.
#[derive(Debug, Clone)]
pub struct McpServersConfig {
    pub mcp_servers: Vec<(String, McpServerConfig)>,
}

/// How to reach one MCP server: a command to spawn, or a URL. The extra
/// environment, when well formed, lists each variable once, in ascending
/// name order.
#[derive(Debug, Clone)]
pub struct McpServerConfig {
    pub command: Option<String>,
    pub args: Option<Vec<String>>,
    pub url: Option<String>,
    pub env: Option<Vec<(String, String)>>,
    pub disabled: bool,
}

/// `a` comes before `b` in the order of `str`: the first differing
/// character decides, and a proper prefix comes first.
pub open spec fn name_less(a: Seq<char>, b: Seq<char>) -> bool
    decreases a.len(),
{
    if a.len() == 0 {
        b.len() > 0
    } else if b.len() == 0 {
        false
    } else if a[0] != b[0] {
        (a[0] as int) < (b[0] as int)
    } else {
        name_less(a.drop_first(), b.drop_first())
    }
}

/// Each key occurs once and the keys ascend.
pub open spec fn keys_ascending<T>(entries: Seq<(String, T)>) -> bool {
    forall|i: int, j: int|
        0 <= i < j < entries.len() ==> name_less(
            (#[trigger] entries[i]).0@,
            (#[trigger] entries[j]).0@,
        )
}

/// Exactly one of `a < b`, `a == b`, `b < a` holds.
pub proof fn lemma_name_trichotomy(a: Seq<char>, b: Seq<char>)
    ensures
        a == b || name_less(a, b) || name_less(b, a),
        !(name_less(a, b) && name_less(b, a)),
        !name_less(a, a),
    decreases a.len(),
{
    if a.len() > 0 && b.len() > 0 && a[0] == b[0] {
        lemma_name_trichotomy(a.drop_first(), b.drop_first());
        if a.drop_first() == b.drop_first() {
            assert forall|i: int| 0 <= i < a.len() implies a[i] == b[i] by {
                if i > 0 {
                    assert(a[i] == a.drop_first()[i - 1]);
                    assert(b[i] == b.drop_first()[i - 1]);
                }
            }
            assert(a =~= b);
        }
    } else if a.len() > 0 {
        lemma_name_trichotomy(a.drop_first(), a.drop_first());
    } else if b.len() == 0 {
        assert(a =~= b);
    }
}

/// The order of names is transitive.
pub proof fn lemma_name_less_trans(a: Seq<char>, b: Seq<char>, c: Seq<char>)
    requires
        name_less(a, b),
        name_less(b, c),
    ensures
        name_less(a, c),
    decreases a.len(),
{
    if a.len() > 0 && b.len() > 0 && c.len() > 0 && a[0] == b[0] && b[0] == c[0] {
        lemma_name_less_trans(a.drop_first(), b.drop_first(), c.drop_first());
    }
}

fn name_less_chars(a: &[char], b: &[char]) -> (r: bool)
    ensures
        r == name_less(a@, b@),
{
    let mut i: usize = 0;
    assert(a@.skip(0) =~= a@);
    assert(b@.skip(0) =~= b@);
    while i < a.len() && i < b.len() && a[i] == b[i]
        invariant
            i <= a@.len(),
            i <= b@.len(),
            name_less(a@, b@) == name_less(a@.skip(i as int), b@.skip(i as int)),
        decreases a@.len() - i,
    {
        assert(a@.skip(i as int).drop_first() =~= a@.skip(i + 1));
        assert(b@.skip(i as int).drop_first() =~= b@.skip(i + 1));
        i = i + 1;
    }
    if i == a.len() {
        i < b.len()
    } else if i == b.len() {
        false
    } else {
        a[i] < b[i]
    }
}

/// Puts `value` under `key` in `entries`, as a map does: the entry with that
/// key, if any, is replaced; otherwise a new entry goes where the keys stay
/// ascending.
pub fn insert_entry<T>(entries: &mut Vec<(String, T)>, key: String, value: T)
    requires
        keys_ascending(old(entries)@),
    ensures
        keys_ascending(final(entries)@),
        (exists|k: int|
            0 <= k < old(entries)@.len() && (#[trigger] old(entries)@[k]).0@ == key@
                && final(entries)@ == old(entries)@.update(k, (key, value)))
            || ((forall|i: int|
            0 <= i < old(entries)@.len() ==> (#[trigger] old(entries)@[i]).0@ != key@) && exists|k: int|
            0 <= k <= old(entries)@.len() && final(entries)@ == old(entries)@.insert(k, (key, value))),
{
    let wanted = str_chars(key.as_str());
    let mut k: usize = 0;
    while k < entries.len()
        invariant
            k <= entries@.len(),
            entries@ == old(entries)@,
            wanted@ == key@,
            keys_ascending(entries@),
            forall|i: int| 0 <= i < k ==> name_less((#[trigger] entries@[i]).0@, key@),
        ensures
            k <= entries@.len(),
            entries@ == old(entries)@,
            forall|i: int| 0 <= i < k ==> name_less((#[trigger] entries@[i]).0@, key@),
            k < entries@.len() ==> !name_less(entries@[k as int].0@, key@),
        decreases entries@.len() - k,
    {
        let current = str_chars(entries[k].0.as_str());
        if !name_less_chars(current.as_slice(), wanted.as_slice()) {
            break;
        }
        k = k + 1;
    }
    let ghost before = entries@;
    proof {
        assert forall|i: int| 0 <= i < k implies (#[trigger] before[i]).0@ != key@ by {
            lemma_name_trichotomy(before[i].0@, key@);
        }
    }
    if k < entries.len() {
        let current = str_chars(entries[k].0.as_str());
        let found = current.len() == wanted.len() && !name_less_chars(wanted.as_slice(), current.as_slice());
        proof {
            lemma_name_trichotomy(before[k as int].0@, key@);
        }
        if found {
            proof {
                lemma_name_trichotomy(key@, key@);
            }
            entries.set(k, (key, value));
            proof {
                assert forall|i: int, j: int| 0 <= i < j < entries@.len() implies name_less(
                    (#[trigger] entries@[i]).0@,
                    (#[trigger] entries@[j]).0@,
                ) by {
                    assert(before[i].0@ == entries@[i].0@);
                    assert(before[j].0@ == entries@[j].0@);
                }
            }
            return;
        }
        proof {
            if before[k as int].0@ == key@ {
                lemma_name_trichotomy(key@, key@);
            }
        }
    }
    entries.insert(k, (key, value));
    proof {
        let after = entries@;
        assert(after == before.insert(k as int, (key, value)));
        assert forall|i: int| 0 <= i < before.len() implies (#[trigger] before[i]).0@ != key@ by {
            if i >= k {
                lemma_name_trichotomy(before[k as int].0@, key@);
                if i > k {
                    lemma_name_less_trans(key@, before[k as int].0@, before[i].0@);
                    lemma_name_trichotomy(key@, before[i].0@);
                } else {
                    lemma_name_trichotomy(key@, before[i].0@);
                }
            }
        }
        assert forall|i: int, j: int| 0 <= i < j < after.len() implies name_less(
            (#[trigger] after[i]).0@,
            (#[trigger] after[j]).0@,
        ) by {
            if j < k {
            } else if j == k {
            } else if i < k {
                assert(after[j] == before[j - 1]);
                if j - 1 > k {
                    lemma_name_less_trans(after[i].0@, key@, before[k as int].0@);
                    lemma_name_less_trans(after[i].0@, before[k as int].0@, before[j - 1].0@);
                } else {
                    lemma_name_less_trans(after[i].0@, key@, before[k as int].0@);
                }
            } else if i == k {
                if j - 1 > k {
                    lemma_name_less_trans(key@, before[k as int].0@, before[j - 1].0@);
                }
            } else {
                assert(after[i] == before[i - 1]);
                assert(after[j] == before[j - 1]);
            }
        }
    }
}

impl McpServersConfig {
    /// Each server name once, in ascending order, and each server's extra
    /// environment likewise.
    pub open spec fn well_formed(&self) -> bool {
        &&& keys_ascending(self.mcp_servers@)
        &&& forall|i: int|
            0 <= i < self.mcp_servers@.len() ==> ((#[trigger] self.mcp_servers@[i]).1.env matches Some(
                e,
            ) ==> keys_ascending(e@))
    }

    /// No server configured.
    pub fn default_config() -> (r: Self)
        ensures
            r.mcp_servers@.len() == 0,
            r.well_formed(),
    {
        McpServersConfig { mcp_servers: Vec::new() }
    }

    /// Configures `server` under `name`, replacing a server of that name.
    pub fn insert(&mut self, name: String, server: McpServerConfig)
        requires
            old(self).well_formed(),
            server.env matches Some(e) ==> keys_ascending(e@),
        ensures
            final(self).well_formed(),
            (exists|k: int|
                0 <= k < old(self).mcp_servers@.len() && (#[trigger] old(self).mcp_servers@[k]).0@
                    == name@ && final(self).mcp_servers@ == old(self).mcp_servers@.update(
                    k,
                    (name, server),
                )) || ((forall|i: int|
                0 <= i < old(self).mcp_servers@.len() ==> (#[trigger] old(self).mcp_servers@[i]).0@
                    != name@) && exists|k: int|
                0 <= k <= old(self).mcp_servers@.len() && final(self).mcp_servers@
                    == old(self).mcp_servers@.insert(k, (name, server))),
    {
        let ghost before = self.mcp_servers@;
        insert_entry(&mut self.mcp_servers, name, server);
        proof {
            let after = self.mcp_servers@;
            assert forall|i: int| 0 <= i < after.len() implies ((#[trigger] after[i]).1.env matches Some(
                e,
            ) ==> keys_ascending(e@)) by {
                if exists|k: int|
                    0 <= k < before.len() && (#[trigger] before[k]).0@ == name@ && after
                        == before.update(k, (name, server)) {
                    let k = choose|k: int|
                        0 <= k < before.len() && (#[trigger] before[k]).0@ == name@ && after
                            == before.update(k, (name, server));
                    if i != k {
                        assert(after[i] == before[i]);
                    }
                } else {
                    let k = choose|k: int|
                        0 <= k <= before.len() && after == before.insert(k, (name, server));
                    if i < k {
                        assert(after[i] == before[i]);
                    } else if i > k {
                        assert(after[i] == before[i - 1]);
                    }
                }
            }
        }
    }

    /// The number of configured servers, enabled or not.
    pub fn configured_server_count(&self) -> (r: usize)
        ensures
            r == self.mcp_servers@.len(),
    {
        self.mcp_servers.len()
    }
}

/// Where the content of `preference/mcp-servers.json` comes from at load time.
#[derive(Debug, Clone, Copy, PartialEq, Eq, Structural)]
pub enum McpConfigLoad {
    /// The preference file exists: read it as it is.
    ReadExisting,
    /// Only the legacy file exists: copy its configuration into the
    /// preference file, then read the preference file. The legacy file is
    /// left in place.
    ImportLegacy,
    /// Neither file exists: write the default configuration, then read it.
    WriteDefault,
}

/// How the MCP configuration is loaded, given which of the two files exist.
/// An existing preference file is never overwritten.
pub fn load_or_init_mcp_servers_config(preference_exists: bool, legacy_exists: bool) -> (r:
    McpConfigLoad)
    ensures
        preference_exists ==> r == McpConfigLoad::ReadExisting,
        !preference_exists && legacy_exists ==> r == McpConfigLoad::ImportLegacy,
        !preference_exists && !legacy_exists ==> r == McpConfigLoad::WriteDefault,
{
    if preference_exists {
        McpConfigLoad::ReadExisting
    } else if legacy_exists {
        McpConfigLoad::ImportLegacy
    } else {
        McpConfigLoad::WriteDefault
    }
}

} // verus!
