//! Cassandra storage backend configuration.
use vstd::prelude::*;
use crate::text::{
    cat3, chars_of, clone_strings, find_char, find_from, join, joined, lemma_find_is, pieces, push_text,
    trim_part, trimmed, views,
};

verus! {

/// Cassandra storage backend configuration.
#[derive(Debug, PartialEq, Eq)]
pub struct CassandraStorageConfig {
    /// Cassandra contact points (host:port)
    pub contact_points: Vec<String>,
    /// Username for authentication
    pub username: Option<String>,
    /// Password for authentication
    pub password: Option<String>,
    /// Keyspace prefix (default: "extenddb")
    pub keyspace_prefix: String,
    /// Replication factor for keyspaces (default: 3)
    pub replication_factor: u32,
    /// Datacenter name for NetworkTopologyStrategy (default: "datacenter1")
    pub datacenter: String,
    /// Maximum connections per host (default: 10)
    pub max_connections: u32,
    /// Cached connection string (JDBC-style: host1,host2/keyspace_prefix)
    pub cached_connection_string: Option<String>,
    /// Stable identifier for this server instance, set by the server before
    /// constructing the engine. Used to derive the HLC node ID.
    pub instance_id: Option<String>,
}

impl Clone for CassandraStorageConfig {
    fn clone(&self) -> (r: CassandraStorageConfig)
        ensures
            r.contact_points@ == self.contact_points@,
            r == (CassandraStorageConfig { contact_points: r.contact_points, ..*self }),
    {
        CassandraStorageConfig {
            contact_points: clone_strings(&self.contact_points),
            username: clone_option(&self.username),
            password: clone_option(&self.password),
            keyspace_prefix: self.keyspace_prefix.clone(),
            replication_factor: self.replication_factor,
            datacenter: self.datacenter.clone(),
            max_connections: self.max_connections,
            cached_connection_string: clone_option(&self.cached_connection_string),
            instance_id: clone_option(&self.instance_id),
        }
    }
}

fn clone_option(s: &Option<String>) -> (r: Option<String>)
    ensures
        r == *s,
{
    match s {
        Some(t) => Some(t.clone()),
        None => None,
    }
}

/// The keyspace prefix where none is configured.
pub fn default_keyspace_prefix() -> (r: String)
    ensures
        r@ == "extenddb"@,
{
    "extenddb".to_owned()
}

/// The replication factor where none is configured.
pub fn default_replication_factor() -> (r: u32)
    ensures
        r == 3,
{
    3
}

/// The datacenter where none is configured.
pub fn default_datacenter() -> (r: String)
    ensures
        r@ == "datacenter1"@,
{
    "datacenter1".to_owned()
}

/// The connection limit where none is configured.
pub fn default_max_connections() -> (r: u32)
    ensures
        r == 10,
{
    10
}

/// The connection string of hosts and a keyspace prefix.
pub open spec fn connection_string(hosts: Seq<Seq<char>>, prefix: Seq<char>) -> Seq<char> {
    joined(hosts, ","@) + "/"@ + prefix
}

/// The contact points of a connection string: the trimmed pieces before the first
/// slash.
pub open spec fn points_of(s: Seq<char>) -> Seq<Seq<char>> {
    pieces(s.take(find_from(s, '/', 0) as int), ',').map_values(|p: Seq<char>| trimmed(p))
}

/// The keyspace prefix of a connection string: what follows the first slash,
/// trimmed, or the default where there is none.
pub open spec fn prefix_of(s: Seq<char>) -> Seq<char> {
    let k = find_from(s, '/', 0);
    if k < s.len() {
        trimmed(s.skip(k as int + 1))
    } else {
        "extenddb"@
    }
}

fn trimmed_pieces(v: &Vec<char>, to: usize) -> (r: Vec<String>)
    requires
        to <= v@.len(),
    ensures
        views(r@) == pieces(v@.take(to as int), ',').map_values(|p: Seq<char>| trimmed(p)),
{
    let ghost f = |p: Seq<char>| trimmed(p);
    let ghost all = v@.take(to as int);
    let mut out: Vec<String> = Vec::new();
    let mut from: usize = 0;
    proof {
        assert(all.skip(0) =~= all);
        assert(views(out@) + pieces(all, ',').map_values(f) =~= pieces(all, ',').map_values(f));
    }
    loop
        invariant
            from <= to <= v@.len(),
            all == v@.take(to as int),
            f == (|p: Seq<char>| trimmed(p)),
            views(out@) + pieces(all.skip(from as int), ',').map_values(f) == pieces(
                all,
                ',',
            ).map_values(f),
        decreases to - from,
    {
        let found = find_char(v, ',', from);
        let k: usize = if found < to {
            found
        } else {
            to
        };
        let ghost rest = all.skip(from as int);
        proof {
            lemma_find_is(rest, ',', 0, (k - from) as nat);
            assert(rest.take(k - from) =~= v@.subrange(from as int, k as int));
        }
        let ghost before = views(out@);
        push_text(&mut out, trim_part(v, from, k));
        if k == to {
            proof {
                assert(rest =~= v@.subrange(from as int, to as int));
                assert(pieces(rest, ',') =~= seq![rest]);
                assert(views(out@) =~= before + pieces(rest, ',').map_values(f));
            }
            return out;
        }
        proof {
            let tail = rest.skip(k - from + 1);
            assert(tail =~= all.skip(k + 1));
            assert(pieces(rest, ',') == seq![rest.take(k - from)] + pieces(tail, ','));
            assert(views(out@) + pieces(tail, ',').map_values(f) =~= before + pieces(
                rest,
                ',',
            ).map_values(f));
        }
        from = k + 1;
    }
}

impl CassandraStorageConfig {
    /// Build the connection string in JDBC-style format: host1,host2/keyspace_prefix
    pub fn build_connection_string(&self) -> (r: String)
        ensures
            r@ == connection_string(views(self.contact_points@), self.keyspace_prefix@),
    {
        let hosts = join(&self.contact_points, ",");
        cat3(hosts.as_str(), "/", self.keyspace_prefix.as_str())
    }

    /// Ensure the cached connection string is populated.
    /// Call this after deserialization or construction.
    pub fn ensure_cached_connection_string(&mut self)
        ensures
            final(self).cached_connection_string is Some,
            old(self).cached_connection_string is Some ==> *final(self) == *old(self),
            old(self).cached_connection_string is None ==> final(self).cached_connection_string->0@
                == connection_string(
                views(old(self).contact_points@),
                old(self).keyspace_prefix@,
            ),
            *final(self) == (CassandraStorageConfig {
                cached_connection_string: final(self).cached_connection_string,
                ..*old(self)
            }),
    {
        if self.cached_connection_string.is_none() {
            let s = self.build_connection_string();
            self.cached_connection_string = Some(s);
        }
    }

    /// Rebuild the cached connection string.
    /// Use this after modifying contact_points or keyspace_prefix.
    pub fn rebuild_cached_connection_string(&mut self)
        ensures
            final(self).cached_connection_string is Some,
            final(self).cached_connection_string->0@ == connection_string(
                views(old(self).contact_points@),
                old(self).keyspace_prefix@,
            ),
            *final(self) == (CassandraStorageConfig {
                cached_connection_string: final(self).cached_connection_string,
                ..*old(self)
            }),
    {
        let s = self.build_connection_string();
        self.cached_connection_string = Some(s);
    }

    /// Parse a JDBC-style connection string into contact points and keyspace prefix.
    /// Format: "host1:port1,host2:port2/keyspace_prefix"
    /// Returns (contact_points, keyspace_prefix)
    pub fn parse_connection_string(conn_str: &str) -> (r: (Vec<String>, String))
        ensures
            views(r.0@) == points_of(conn_str@),
            r.1@ == prefix_of(conn_str@),
    {
        let v = chars_of(conn_str);
        let k = find_char(&v, '/', 0);
        let points = trimmed_pieces(&v, k);
        if k < v.len() {
            proof {
                assert(v@.subrange(k + 1, v@.len() as int) =~= v@.skip(k + 1));
            }
            (points, trim_part(&v, k + 1, v.len()))
        } else {
            (points, default_keyspace_prefix())
        }
    }

    /// Create default config programmatically
    pub fn new(contact_points: Vec<String>) -> (r: CassandraStorageConfig)
        ensures
            r.contact_points == contact_points,
            r.username is None,
            r.password is None,
            r.keyspace_prefix@ == "extenddb"@,
            r.replication_factor == 3,
            r.datacenter@ == "datacenter1"@,
            r.max_connections == 10,
            r.cached_connection_string is Some,
            r.cached_connection_string->0@ == connection_string(
                views(contact_points@),
                "extenddb"@,
            ),
            r.instance_id is None,
    {
        let mut config = CassandraStorageConfig {
            contact_points,
            username: None,
            password: None,
            keyspace_prefix: default_keyspace_prefix(),
            replication_factor: default_replication_factor(),
            datacenter: default_datacenter(),
            max_connections: default_max_connections(),
            cached_connection_string: None,
            instance_id: None,
        };
        config.ensure_cached_connection_string();
        config
    }

    /// The configuration of a file that leaves some keys out: a missing key takes
    /// its default. A file holds no connection string and no instance identifier.
    pub fn from_file(
        contact_points: Vec<String>,
        username: Option<String>,
        password: Option<String>,
        keyspace_prefix: Option<String>,
        replication_factor: Option<u32>,
        datacenter: Option<String>,
        max_connections: Option<u32>,
    ) -> (r: CassandraStorageConfig)
        ensures
            r.contact_points == contact_points,
            r.username == username,
            r.password == password,
            r.keyspace_prefix@ == (match keyspace_prefix {
                Some(s) => s@,
                None => "extenddb"@,
            }),
            r.replication_factor == (match replication_factor {
                Some(n) => n,
                None => 3,
            }),
            r.datacenter@ == (match datacenter {
                Some(s) => s@,
                None => "datacenter1"@,
            }),
            r.max_connections == (match max_connections {
                Some(n) => n,
                None => 10,
            }),
            r.cached_connection_string is None,
            r.instance_id is None,
    {
        CassandraStorageConfig {
            contact_points,
            username,
            password,
            keyspace_prefix: match keyspace_prefix {
                Some(s) => s,
                None => default_keyspace_prefix(),
            },
            replication_factor: match replication_factor {
                Some(n) => n,
                None => default_replication_factor(),
            },
            datacenter: match datacenter {
                Some(s) => s,
                None => default_datacenter(),
            },
            max_connections: match max_connections {
                Some(n) => n,
                None => default_max_connections(),
            },
            cached_connection_string: None,
            instance_id: None,
        }
    }

    /// The connection string, from which both contact points and keyspace can be
    /// parsed.
    pub fn connection_config(&self) -> (r: &str)
        ensures
            r@ == (match self.cached_connection_string {
                Some(s) => s@,
                None => "(no connection string)"@,
            }),
    {
        match &self.cached_connection_string {
            Some(s) => s.as_str(),
            None => "(no connection string)",
        }
    }

    /// The connection limit.
    pub fn max_connections(&self) -> (r: u32)
        ensures
            r == self.max_connections,
    {
        self.max_connections
    }

    /// The connection limit of the catalog, which shares the pool of the data.
    pub fn max_catalog_connections(&self) -> (r: u32)
        ensures
            r == self.max_connections,
    {
        self.max_connections
    }

    /// Set the identifier of this server instance.
    pub fn set_instance_id(&mut self, instance_id: &str)
        ensures
            final(self).instance_id is Some,
            final(self).instance_id->0@ == instance_id@,
            *final(self) == (CassandraStorageConfig {
                instance_id: final(self).instance_id,
                ..*old(self)
            }),
    {
        self.instance_id = Some(instance_id.to_owned());
    }

    /// The identifier of this server instance.
    pub fn instance_id(&self) -> (r: Option<&str>)
        ensures
            match self.instance_id {
                Some(s) => r is Some && r->0@ == s@,
                None => r is None,
            },
    {
        match &self.instance_id {
            Some(s) => Some(s.as_str()),
            None => None,
        }
    }
}

proof fn lemma_joined_front(parts: Seq<Seq<char>>, sep: Seq<char>)
    requires
        parts.len() >= 2,
    ensures
        joined(parts, sep) == parts[0] + sep + joined(parts.drop_first(), sep),
    decreases parts.len(),
{
    let rest = parts.drop_first();
    if parts.len() == 2 {
        assert(parts.drop_last() =~= seq![parts[0]]);
        assert(joined(parts.drop_last(), sep) == parts[0]);
        assert(joined(rest, sep) == parts[1]);
    } else {
        lemma_joined_front(parts.drop_last(), sep);
        assert(parts.drop_last().drop_first() =~= rest.drop_last());
        assert(rest.last() == parts.last());
        assert(parts[0] + sep + (joined(rest.drop_last(), sep) + sep + parts.last()) =~= parts[0]
            + sep + joined(rest.drop_last(), sep) + sep + parts.last());
    }
}

/// No host holds the character.
pub open spec fn none_holds(hosts: Seq<Seq<char>>, c: char) -> bool {
    forall|i: int, k: int|
        0 <= i < hosts.len() && 0 <= k < hosts[i].len() ==> #[trigger] hosts[i][k] != c
}

proof fn lemma_joined_lacks(hosts: Seq<Seq<char>>, c: char)
    requires
        none_holds(hosts, c),
        c != ',',
    ensures
        forall|k: int| 0 <= k < joined(hosts, ","@).len() ==> joined(hosts, ","@)[k] != c,
    decreases hosts.len(),
{
    reveal_strlit(",");
    if hosts.len() == 1 {
        assert forall|k: int| 0 <= k < joined(hosts, ","@).len() implies joined(hosts, ","@)[k]
            != c by {
            assert(hosts[0][k] != c);
        }
    } else if hosts.len() > 1 {
        let front = hosts.drop_last();
        assert forall|i: int, k: int|
            0 <= i < front.len() && 0 <= k < front[i].len() implies #[trigger] front[i][k] != c by {
            assert(hosts[i][k] != c);
        }
        lemma_joined_lacks(front, c);
        let n = hosts.len() - 1;
        let head = joined(front, ","@);
        assert forall|k: int| 0 <= k < joined(hosts, ","@).len() implies joined(hosts, ","@)[k]
            != c by {
            if k >= head.len() + 1 {
                assert(hosts[n][k - head.len() - 1] != c);
            }
        }
    }
}

proof fn lemma_pieces_of_joined(hosts: Seq<Seq<char>>)
    requires
        hosts.len() > 0,
        none_holds(hosts, ','),
    ensures
        pieces(joined(hosts, ","@), ',') == hosts,
    decreases hosts.len(),
{
    reveal_strlit(",");
    let s = joined(hosts, ","@);
    let first = hosts[0];
    if hosts.len() == 1 {
        assert forall|k: int| 0 <= k < s.len() implies s[k] != ',' by {
            assert(hosts[0][k] != ',');
        }
        lemma_find_is(s, ',', 0, s.len());
        assert(pieces(s, ',') =~= hosts);
    } else {
        let rest = hosts.drop_first();
        lemma_joined_front(hosts, ","@);
        assert forall|i: int, k: int|
            0 <= i < rest.len() && 0 <= k < rest[i].len() implies #[trigger] rest[i][k] != ',' by {
            assert(hosts[i + 1][k] != ',');
        }
        lemma_pieces_of_joined(rest);
        assert forall|k: int| 0 <= k < first.len() implies s[k] != ',' by {
            assert(hosts[0][k] != ',');
        }
        lemma_find_is(s, ',', 0, first.len());
        assert(s.take(first.len() as int) =~= first);
        assert(s.skip(first.len() as int + 1) =~= joined(rest, ","@));
        assert(seq![first] + rest =~= hosts);
    }
}

/// A connection string parses back to the hosts and the prefix that it was built
/// from: of at least one host, where neither hosts nor prefix have white space
/// around them and no host holds a comma or a slash.
pub proof fn law_connection_string_round_trip(hosts: Seq<Seq<char>>, prefix: Seq<char>)
    requires
        hosts.len() > 0,
        none_holds(hosts, ','),
        none_holds(hosts, '/'),
        forall|i: int| 0 <= i < hosts.len() ==> trimmed(#[trigger] hosts[i]) == hosts[i],
        trimmed(prefix) == prefix,
    ensures
        points_of(connection_string(hosts, prefix)) == hosts,
        prefix_of(connection_string(hosts, prefix)) == prefix,
{
    reveal_strlit("/");
    let list = joined(hosts, ","@);
    let s = connection_string(hosts, prefix);
    lemma_joined_lacks(hosts, '/');
    assert forall|k: int| 0 <= k < list.len() implies s[k] != '/' by {
        assert(s[k] == list[k]);
    }
    lemma_find_is(s, '/', 0, list.len());
    assert(s.take(list.len() as int) =~= list);
    assert(s.skip(list.len() as int + 1) =~= prefix);
    lemma_pieces_of_joined(hosts);
    assert(hosts.map_values(|p: Seq<char>| trimmed(p)) =~= hosts);
}

} // verus!
