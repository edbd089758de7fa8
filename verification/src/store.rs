//! The credential store: tenants, users, per-tenant salts and encrypted
//! entries, with the invariants that give tenant isolation.
//!
//! The store is an in-memory relational model; adapters persist and reload
//! it at the process edge. Every operation is scoped by tenant id, and no
//! operation reads or deletes across tenants.

use vstd::prelude::*;
use vstd::string::StrSliceExecFns;

use crate::crypto::hash_password;
use crate::crypto::phc_verifies;
use crate::crypto::random_salt;
use crate::crypto::verify_password;
use crate::errors::VaultError;

verus! {

broadcast use vstd::seq_lib::group_filter_ensures, vstd::seq_lib::group_to_multiset_ensures;

/// An isolated namespace of users and secret entries.
#[derive(Debug, Clone)]
pub struct Tenant {
    /// Unique id, assigned by the store and never reused.
    pub id: i64,
    /// Unique, non-empty name.
    pub name: String,
    /// Creation timestamp, supplied by the adapter that owns the clock.
    pub created_at: String,
}

/// An account: either a superuser (no tenant, no vault access) or a tenant
/// user belonging to exactly one tenant.
#[derive(Debug, Clone)]
pub struct User {
    pub id: i64,
    /// `None` for a superuser, the owning tenant otherwise.
    pub tenant_id: Option<i64>,
    /// Globally unique.
    pub username: String,
    pub is_superuser: bool,
}

/// A tenant together with its immutable 32-byte encryption salt, created
/// once at tenant creation and never regenerated.
pub struct StoredTenant {
    pub tenant: Tenant,
    pub salt: [u8; 32],
}

/// A user record as the store keeps it: the public fields plus the opaque
/// password hash (a PHC string carrying its own salt and parameters).
pub struct StoredUser {
    pub id: i64,
    pub tenant_id: Option<i64>,
    pub username: String,
    pub password_hash: String,
    pub is_superuser: bool,
}

/// An encrypted entry. The primary key is (tenant_id, name): names are
/// unique within a tenant but may repeat across tenants.
pub struct StoredEntry {
    pub tenant_id: i64,
    pub name: String,
    /// 12 bytes, random per write, never reused by construction.
    pub nonce: [u8; 12],
    /// AES-256-GCM output with the 16-byte tag appended.
    pub ciphertext: Vec<u8>,
}

/// Whether an entry has the given primary key.
pub open spec fn entry_matches(e: StoredEntry, tenant_id: i64, name: Seq<char>) -> bool {
    e.tenant_id == tenant_id && e.name@ == name
}

/// Whether two entries collide on the primary key.
pub open spec fn entry_same_key(a: StoredEntry, b: StoredEntry) -> bool {
    a.tenant_id == b.tenant_id && a.name@ == b.name@
}

/// Durable storage of tenants, users and entries.
pub struct CredentialStore {
    pub tenants: Vec<StoredTenant>,
    pub users: Vec<StoredUser>,
    pub entries: Vec<StoredEntry>,
    /// The id the next tenant will get; larger than every assigned id.
    pub next_tenant_id: i64,
    /// The id the next user will get; larger than every assigned id.
    pub next_user_id: i64,
}

impl CredentialStore {
    /// There is a tenant with this id.
    pub open spec fn has_tenant(self, id: i64) -> bool {
        exists|i: int|
            0 <= i < self.tenants@.len() && (#[trigger] self.tenants@[i]).tenant.id == id
    }

    /// The tenant record with this id (meaningful when `has_tenant`).
    pub open spec fn spec_tenant(self, id: i64) -> StoredTenant {
        self.tenants@[choose|i: int|
            0 <= i < self.tenants@.len() && (#[trigger] self.tenants@[i]).tenant.id == id]
    }

    /// Some tenant already carries this name.
    pub open spec fn tenant_name_taken(self, name: Seq<char>) -> bool {
        exists|i: int|
            0 <= i < self.tenants@.len() && (#[trigger] self.tenants@[i]).tenant.name@ == name
    }

    /// Some user row already carries this id.
    pub open spec fn user_id_in_use(self, id: i64) -> bool {
        exists|i: int| 0 <= i < self.users@.len() && (#[trigger] self.users@[i]).id == id
    }

    /// There is a user with this username.
    pub open spec fn has_user(self, username: Seq<char>) -> bool {
        exists|i: int|
            0 <= i < self.users@.len() && (#[trigger] self.users@[i]).username@ == username
    }

    /// The user record with this username (meaningful when `has_user`).
    pub open spec fn spec_user(self, username: Seq<char>) -> StoredUser {
        self.users@[choose|i: int|
            0 <= i < self.users@.len() && (#[trigger] self.users@[i]).username@ == username]
    }

    /// There is an entry with this key.
    pub open spec fn has_entry(self, tenant_id: i64, name: Seq<char>) -> bool {
        exists|i: int|
            0 <= i < self.entries@.len() && entry_matches(
                #[trigger] self.entries@[i],
                tenant_id,
                name,
            )
    }

    /// The entry with this key (meaningful when `has_entry`).
    pub open spec fn spec_entry(self, tenant_id: i64, name: Seq<char>) -> StoredEntry {
        self.entries@[choose|i: int|
            0 <= i < self.entries@.len() && entry_matches(
                #[trigger] self.entries@[i],
                tenant_id,
                name,
            )]
    }

    /// Tenant rows are well formed: ids and names unique, names non-empty,
    /// ids positive and below the allocation counter.
    pub open spec fn tenants_wf(self) -> bool {
        &&& forall|i: int, j: int|
            0 <= i < j < self.tenants@.len() ==> (#[trigger] self.tenants@[i]).tenant.id != (
            #[trigger] self.tenants@[j]).tenant.id && self.tenants@[i].tenant.name@
                != self.tenants@[j].tenant.name@
        &&& forall|i: int|
            0 <= i < self.tenants@.len() ==> 0 < (#[trigger] self.tenants@[i]).tenant.id
                < self.next_tenant_id
        &&& forall|i: int|
            0 <= i < self.tenants@.len() ==> (#[trigger] self.tenants@[i]).tenant.name@.len() > 0
    }

    /// User rows are well formed: ids and usernames unique, ids positive and
    /// below the counter, a superuser has no tenant and a tenant user has
    /// exactly one existing tenant.
    pub open spec fn users_wf(self) -> bool {
        &&& forall|i: int, j: int|
            0 <= i < j < self.users@.len() ==> (#[trigger] self.users@[i]).id != (
            #[trigger] self.users@[j]).id && self.users@[i].username@ != self.users@[j].username@
        &&& forall|i: int|
            0 <= i < self.users@.len() ==> 0 < (#[trigger] self.users@[i]).id < self.next_user_id
        &&& forall|i: int|
            0 <= i < self.users@.len() ==> ((#[trigger] self.users@[i]).is_superuser
                <==> self.users@[i].tenant_id is None)
        &&& forall|i: int|
            0 <= i < self.users@.len() ==> ((#[trigger] self.users@[i]).tenant_id matches Some(t)
                ==> self.has_tenant(t))
    }

    /// Entry rows are well formed: primary keys unique and every entry owned
    /// by an existing tenant.
    pub open spec fn entries_wf(self) -> bool {
        &&& forall|i: int, j: int|
            0 <= i < j < self.entries@.len() ==> !entry_same_key(
                #[trigger] self.entries@[i],
                #[trigger] self.entries@[j],
            )
        &&& forall|i: int|
            0 <= i < self.entries@.len() ==> self.has_tenant(
                (#[trigger] self.entries@[i]).tenant_id,
            )
    }

    /// The store's invariant: every constructor establishes it and every
    /// operation preserves it.
    pub open spec fn wf(self) -> bool {
        &&& self.tenants_wf()
        &&& self.users_wf()
        &&& self.entries_wf()
        &&& self.next_tenant_id >= 1
        &&& self.next_user_id >= 1
    }

    /// An empty store.
    pub fn new() -> (r: CredentialStore)
        ensures
            r.wf(),
            r.tenants@.len() == 0,
            r.users@.len() == 0,
            r.entries@.len() == 0,
            r.next_tenant_id == 1,
            r.next_user_id == 1,
    {
        CredentialStore {
            tenants: Vec::new(),
            users: Vec::new(),
            entries: Vec::new(),
            next_tenant_id: 1,
            next_user_id: 1,
        }
    }
}

/// The user rows that survive deleting a tenant: those not owned by it.
pub open spec fn users_without_tenant(s: Seq<StoredUser>, tenant_id: i64) -> Seq<StoredUser> {
    s.filter(|u: StoredUser| u.tenant_id != Some(tenant_id))
}

/// The entry rows that survive deleting a tenant: those not owned by it.
pub open spec fn entries_without_tenant(s: Seq<StoredEntry>, tenant_id: i64) -> Seq<
    StoredEntry,
> {
    s.filter(|e: StoredEntry| e.tenant_id != tenant_id)
}

/// Every element of a filtered sequence comes from the original sequence.
proof fn lemma_filter_member<A>(s: Seq<A>, pred: spec_fn(A) -> bool, k: int)
    requires
        0 <= k < s.filter(pred).len(),
    ensures
        exists|m: int| 0 <= m < s.len() && s[m] == s.filter(pred)[k],
    decreases s.len(),
{
    reveal(Seq::filter);
    if s.len() > 0 {
        let sub = s.drop_last().filter(pred);
        if pred(s.last()) && k == sub.len() {
            assert(s[s.len() - 1] == s.filter(pred)[k]);
        } else {
            lemma_filter_member(s.drop_last(), pred, k);
            let m = choose|m: int| 0 <= m < s.drop_last().len() && s.drop_last()[m] == s.drop_last().filter(pred)[k];
            assert(s[m] == s.filter(pred)[k]);
        }
    }
}

/// Filtering preserves any pairwise property of the rows, uniqueness of
/// keys in particular.
proof fn lemma_filter_pairwise<A>(s: Seq<A>, pred: spec_fn(A) -> bool, bad: spec_fn(A, A) -> bool)
    requires
        forall|i: int, j: int| 0 <= i < j < s.len() ==> !bad(#[trigger] s[i], #[trigger] s[j]),
    ensures
        forall|i: int, j: int|
            0 <= i < j < s.filter(pred).len() ==> !bad(
                #[trigger] s.filter(pred)[i],
                #[trigger] s.filter(pred)[j],
            ),
    decreases s.len(),
{
    reveal(Seq::filter);
    if s.len() > 0 {
        let prefix = s.drop_last();
        lemma_filter_pairwise(prefix, pred, bad);
        let sub = prefix.filter(pred);
        let out = s.filter(pred);
        if pred(s.last()) {
            assert(out == sub.push(s.last()));
            assert forall|i: int, j: int| 0 <= i < j < out.len() implies !bad(
                #[trigger] out[i],
                #[trigger] out[j],
            ) by {
                if j < sub.len() {
                    assert(out[i] == sub[i] && out[j] == sub[j]);
                } else {
                    assert(out[i] == sub[i] && out[j] == s.last());
                    lemma_filter_member(prefix, pred, i);
                    let m = choose|m: int| 0 <= m < prefix.len() && prefix[m] == sub[i];
                    assert(s[m] == sub[i]);
                    assert(!bad(s[m], s[s.len() - 1]));
                }
            }
        }
    }
}

/// Keep only the users that do not belong to the given tenant.
fn drop_users_of_tenant(src: Vec<StoredUser>, tenant_id: i64) -> (r: Vec<StoredUser>)
    ensures
        r@ == users_without_tenant(src@, tenant_id),
{
    let ghost orig = src@;
    let mut src = src;
    let mut out: Vec<StoredUser> = Vec::new();
    proof {
        reveal(Seq::filter);
        assert(orig.take(0) =~= Seq::<StoredUser>::empty());
        assert(src@ =~= orig.skip(0));
    }
    while src.len() > 0
        invariant
            src@.len() <= orig.len(),
            src@ == orig.skip(orig.len() - src@.len()),
            out@ == users_without_tenant(orig.take(orig.len() - src@.len()), tenant_id),
        decreases src@.len(),
    {
        let ghost g = orig.len() - src@.len();
        let u = src.remove(0);
        proof {
            assert(u == orig.skip(g)[0]);
            assert(u == orig[g]);
            assert(src@ =~= orig.skip(g + 1));
        }
        let keep = match u.tenant_id {
            Some(t) => t != tenant_id,
            None => true,
        };
        if keep {
            out.push(u);
        }
        proof {
            reveal(Seq::filter);
            let tk = orig.take(g);
            let tk1 = orig.take(g + 1);
            assert(tk1 =~= tk.push(orig[g]));
            assert(tk1.drop_last() =~= tk);
            assert(tk1.last() == orig[g]);
            assert(out@ == users_without_tenant(tk1, tenant_id));
        }
    }
    proof {
        assert(orig.take(orig.len() - src@.len()) =~= orig);
    }
    out
}

/// Keep only the entries that do not belong to the given tenant.
fn drop_entries_of_tenant(src: Vec<StoredEntry>, tenant_id: i64) -> (r: Vec<StoredEntry>)
    ensures
        r@ == entries_without_tenant(src@, tenant_id),
{
    let ghost orig = src@;
    let mut src = src;
    let mut out: Vec<StoredEntry> = Vec::new();
    proof {
        reveal(Seq::filter);
        assert(orig.take(0) =~= Seq::<StoredEntry>::empty());
        assert(src@ =~= orig.skip(0));
    }
    while src.len() > 0
        invariant
            src@.len() <= orig.len(),
            src@ == orig.skip(orig.len() - src@.len()),
            out@ == entries_without_tenant(orig.take(orig.len() - src@.len()), tenant_id),
        decreases src@.len(),
    {
        let ghost g = orig.len() - src@.len();
        let e = src.remove(0);
        proof {
            assert(e == orig.skip(g)[0]);
            assert(e == orig[g]);
            assert(src@ =~= orig.skip(g + 1));
        }
        if e.tenant_id != tenant_id {
            out.push(e);
        }
        proof {
            reveal(Seq::filter);
            let tk = orig.take(g);
            let tk1 = orig.take(g + 1);
            assert(tk1 =~= tk.push(orig[g]));
            assert(tk1.drop_last() =~= tk);
            assert(tk1.last() == orig[g]);
            assert(out@ == entries_without_tenant(tk1, tenant_id));
        }
    }
    proof {
        assert(orig.take(orig.len() - src@.len()) =~= orig);
    }
    out
}

/// Tenant isolation: a write under one tenant — which, by `upsert_entry`'s
/// contract, preserves every entry whose key differs — leaves every other
/// tenant's entry of the same name exactly as it was. Entries collide only
/// when both the tenant and the name coincide.
pub proof fn lemma_tenant_isolation(
    before: CredentialStore,
    after: CredentialStore,
    a: i64,
    b: i64,
    name: Seq<char>,
)
    requires
        a != b,
        forall|t: i64, n: Seq<char>|
            !(t == b && n == name) ==> #[trigger] after.has_entry(t, n) == before.has_entry(t, n),
        forall|t: i64, n: Seq<char>|
            !(t == b && n == name) && before.has_entry(t, n) ==> #[trigger] after.spec_entry(t, n)
                == before.spec_entry(t, n),
    ensures
        after.has_entry(a, name) == before.has_entry(a, name),
        before.has_entry(a, name) ==> after.spec_entry(a, name) == before.spec_entry(a, name),
{
}

/// Lexicographic order on names, by character code points: the order in
/// which tenant listings are presented.
pub open spec fn name_le(a: Seq<char>, b: Seq<char>) -> bool
    decreases a.len(),
{
    if a.len() == 0 {
        true
    } else if b.len() == 0 {
        false
    } else if a[0] == b[0] {
        name_le(a.drop_first(), b.drop_first())
    } else {
        (a[0] as u32) < (b[0] as u32)
    }
}

/// The rows of a tenant listing are sorted ascending by name.
pub open spec fn sorted_by_name(s: Seq<Tenant>) -> bool {
    forall|x: int, y: int|
        0 <= x < y < s.len() ==> name_le((#[trigger] s[x]).name@, (#[trigger] s[y]).name@)
}

/// Distinct characters have distinct code points.
proof fn lemma_char_code_distinct(a: char, b: char)
    requires
        a != b,
    ensures
        a as u32 != b as u32,
{
}

/// The public rows of a sequence of stored tenants.
pub open spec fn tenant_rows(s: Seq<StoredTenant>) -> Seq<Tenant> {
    s.map_values(|st: StoredTenant| st.tenant)
}

/// Inserting an element anywhere in a sequence adds exactly that element to
/// its multiset of rows.
proof fn lemma_insert_to_multiset<A>(s: Seq<A>, p: int, e: A)
    requires
        0 <= p <= s.len(),
    ensures
        s.insert(p, e).to_multiset() == s.to_multiset().insert(e),
{
    let t = s.insert(p, e);
    s.insert_ensures(p, e);
    t.remove_ensures(p);
    assert(t.remove(p) =~= s);
    assert(t[p] == e);
    assert(t.contains(e));
    assert(t.to_multiset().count(e) > 0);
    assert(t.to_multiset() =~= s.to_multiset().insert(e));
}

/// The name order is total: of any two names, one precedes the other.
pub proof fn lemma_name_le_total(a: Seq<char>, b: Seq<char>)
    ensures
        name_le(a, b) || name_le(b, a),
    decreases a.len(),
{
    if a.len() == 0 {
        assert(name_le(a, b));
    } else if b.len() == 0 {
        assert(name_le(b, a));
    } else if a[0] == b[0] {
        lemma_name_le_total(a.drop_first(), b.drop_first());
        assert(name_le(a, b) == name_le(a.drop_first(), b.drop_first()));
        assert(name_le(b, a) == name_le(b.drop_first(), a.drop_first()));
    } else {
        lemma_char_code_distinct(a[0], b[0]);
    }
}

/// The name order is transitive.
pub proof fn lemma_name_le_trans(a: Seq<char>, b: Seq<char>, c: Seq<char>)
    requires
        name_le(a, b),
        name_le(b, c),
    ensures
        name_le(a, c),
    decreases a.len(),
{
    if a.len() > 0 {
        assert(b.len() > 0);
        assert(c.len() > 0);
        if a[0] == b[0] && b[0] == c[0] {
            lemma_name_le_trans(a.drop_first(), b.drop_first(), c.drop_first());
            assert(name_le(a, c) == name_le(a.drop_first(), c.drop_first()));
        } else {
            assert((a[0] as u32) <= (b[0] as u32));
            assert((b[0] as u32) <= (c[0] as u32));
            assert((a[0] as u32) < (c[0] as u32));
            assert(a[0] != c[0]);
        }
    }
}

/// Dropping an equal prefix of two names does not change their order.
proof fn lemma_name_le_skip(a: Seq<char>, b: Seq<char>, i: int)
    requires
        0 <= i <= a.len(),
        i <= b.len(),
        forall|k: int| 0 <= k < i ==> a[k] == b[k],
    ensures
        name_le(a, b) == name_le(a.skip(i), b.skip(i)),
    decreases i,
{
    if i == 0 {
        assert(a.skip(0) =~= a);
        assert(b.skip(0) =~= b);
    } else {
        assert(a[0] == b[0]);
        assert forall|k: int| 0 <= k < i - 1 implies a.drop_first()[k] == b.drop_first()[k] by {
            assert(a[k + 1] == b[k + 1]);
        }
        lemma_name_le_skip(a.drop_first(), b.drop_first(), i - 1);
        assert(a.drop_first().skip(i - 1) =~= a.skip(i));
        assert(b.drop_first().skip(i - 1) =~= b.skip(i));
    }
}

/// Whether one string precedes another in the name order, decided character
/// by character.
fn str_le(a: &str, b: &str) -> (r: bool)
    ensures
        r == name_le(a@, b@),
{
    let la = a.unicode_len();
    let lb = b.unicode_len();
    let n = if la < lb {
        la
    } else {
        lb
    };
    let mut i: usize = 0;
    while i < n
        invariant
            la == a@.len(),
            lb == b@.len(),
            n == if la < lb {
                la
            } else {
                lb
            },
            i <= n,
            forall|k: int| 0 <= k < i ==> a@[k] == b@[k],
        decreases n - i,
    {
        let ca = a.get_char(i);
        let cb = b.get_char(i);
        if ca != cb {
            proof {
                lemma_name_le_skip(a@, b@, i as int);
                assert(a@.skip(i as int)[0] == ca && b@.skip(i as int)[0] == cb);
            }
            return (ca as u32) < (cb as u32);
        }
        i += 1;
    }
    proof {
        lemma_name_le_skip(a@, b@, n as int);
        if la <= lb {
            assert(a@.skip(n as int) =~= Seq::<char>::empty());
        } else {
            assert(b@.skip(n as int) =~= Seq::<char>::empty());
            assert(a@.skip(n as int).len() > 0);
        }
    }
    la <= lb
}

/// String equality over the character views, without trusting anything
/// beyond the standard library's specifications.
pub(crate) fn str_eq(a: &str, b: &str) -> (r: bool)
    ensures
        r == (a@ == b@),
{
    let sa: String = a.to_owned();
    let sb: String = b.to_owned();
    sa == sb
}

impl CredentialStore {
    /// Index of the tenant with this id, if any.
    fn find_tenant(&self, id: i64) -> (r: Option<usize>)
        ensures
            r matches Some(i) ==> i < self.tenants@.len() && self.tenants@[i as int].tenant.id
                == id && self.has_tenant(id),
            r is None ==> !self.has_tenant(id),
    {
        let mut i: usize = 0;
        while i < self.tenants.len()
            invariant
                i <= self.tenants@.len(),
                forall|k: int| 0 <= k < i ==> (#[trigger] self.tenants@[k]).tenant.id != id,
            decreases self.tenants@.len() - i,
        {
            if self.tenants[i].tenant.id == id {
                return Some(i);
            }
            i += 1;
        }
        None
    }

    /// Index of the tenant with this name, if any.
    fn find_tenant_by_name(&self, name: &str) -> (r: Option<usize>)
        ensures
            r matches Some(i) ==> i < self.tenants@.len() && self.tenants@[i as int].tenant.name@
                == name@ && self.tenant_name_taken(name@),
            r is None ==> !self.tenant_name_taken(name@),
    {
        let mut i: usize = 0;
        while i < self.tenants.len()
            invariant
                i <= self.tenants@.len(),
                forall|k: int| 0 <= k < i ==> (#[trigger] self.tenants@[k]).tenant.name@ != name@,
            decreases self.tenants@.len() - i,
        {
            if str_eq(self.tenants[i].tenant.name.as_str(), name) {
                return Some(i);
            }
            i += 1;
        }
        None
    }

    /// Index of the user with this username, if any.
    fn find_user(&self, username: &str) -> (r: Option<usize>)
        ensures
            r matches Some(i) ==> i < self.users@.len() && self.users@[i as int].username@
                == username@ && self.has_user(username@),
            r is None ==> !self.has_user(username@),
    {
        let mut i: usize = 0;
        while i < self.users.len()
            invariant
                i <= self.users@.len(),
                forall|k: int| 0 <= k < i ==> (#[trigger] self.users@[k]).username@ != username@,
            decreases self.users@.len() - i,
        {
            if str_eq(self.users[i].username.as_str(), username) {
                return Some(i);
            }
            i += 1;
        }
        None
    }

    /// Whether some user row already carries this id.
    fn user_id_taken(&self, id: i64) -> (r: bool)
        ensures
            r == self.user_id_in_use(id),
    {
        let mut i: usize = 0;
        while i < self.users.len()
            invariant
                i <= self.users@.len(),
                forall|k: int| 0 <= k < i ==> (#[trigger] self.users@[k]).id != id,
            decreases self.users@.len() - i,
        {
            if self.users[i].id == id {
                return true;
            }
            i += 1;
        }
        false
    }

    /// Index of the entry with this key, if any.
    fn find_entry(&self, tenant_id: i64, name: &str) -> (r: Option<usize>)
        ensures
            r matches Some(i) ==> i < self.entries@.len() && entry_matches(
                self.entries@[i as int],
                tenant_id,
                name@,
            ) && self.has_entry(tenant_id, name@),
            r is None ==> !self.has_entry(tenant_id, name@),
    {
        let mut i: usize = 0;
        while i < self.entries.len()
            invariant
                i <= self.entries@.len(),
                forall|k: int|
                    0 <= k < i ==> !entry_matches(#[trigger] self.entries@[k], tenant_id, name@),
            decreases self.entries@.len() - i,
        {
            if self.entries[i].tenant_id == tenant_id && str_eq(
                self.entries[i].name.as_str(),
                name,
            ) {
                return Some(i);
            }
            i += 1;
        }
        None
    }

    /// Create a tenant with a unique name; a fresh random 32-byte salt is
    /// generated for it, once and immutably.
    pub fn create_tenant(&mut self, name: &str, created_at: &str) -> (r: Result<i64, VaultError>)
        requires
            old(self).wf(),
            name@.len() > 0,
        ensures
            final(self).wf(),
            r is Ok <==> !old(self).tenant_name_taken(name@) && old(self).next_tenant_id
                < i64::MAX,
            r == Err::<i64, VaultError>(VaultError::Duplicate) <==> old(self).tenant_name_taken(
                name@,
            ),
            r == Err::<i64, VaultError>(VaultError::Storage) <==> (!old(self).tenant_name_taken(
                name@,
            ) && old(self).next_tenant_id == i64::MAX),
            r matches Err(e) ==> e == VaultError::Duplicate || e == VaultError::Storage,
            r is Err ==> *final(self) == *old(self),
            r matches Ok(id) ==> ({
                &&& id == old(self).next_tenant_id
                &&& final(self).next_tenant_id == old(self).next_tenant_id + 1
                &&& final(self).tenants@ == old(self).tenants@.push(final(self).tenants@.last())
                &&& final(self).tenants@.last().tenant.id == id
                &&& final(self).tenants@.last().tenant.name@ == name@
                &&& final(self).tenants@.last().tenant.created_at@ == created_at@
                &&& final(self).has_tenant(id)
                &&& final(self).spec_tenant(id) == final(self).tenants@.last()
                &&& forall|t: i64|
                    t != id ==> #[trigger] final(self).has_tenant(t) == old(self).has_tenant(t)
                &&& forall|t: i64|
                    t != id && old(self).has_tenant(t) ==> #[trigger] final(self).spec_tenant(t)
                        == old(self).spec_tenant(t)
                &&& final(self).users@ == old(self).users@
                &&& final(self).entries@ == old(self).entries@
                &&& final(self).next_user_id == old(self).next_user_id
            }),
    {
        if self.find_tenant_by_name(name).is_some() {
            return Err(VaultError::Duplicate);
        }
        if self.next_tenant_id == i64::MAX {
            return Err(VaultError::Storage);
        }
        let id = self.next_tenant_id;
        let salt = random_salt();
        let rec = StoredTenant {
            tenant: Tenant { id, name: name.to_owned(), created_at: created_at.to_owned() },
            salt,
        };
        self.tenants.push(rec);
        self.next_tenant_id = id + 1;
        proof {
            let s0 = *old(self);
            let n = s0.tenants@.len() as int;
            assert(self.tenants@.last() == self.tenants@[n]);
            assert forall|t: i64| s0.has_tenant(t) implies self.has_tenant(t) by {
                let w = choose|i: int|
                    0 <= i < s0.tenants@.len() && (#[trigger] s0.tenants@[i]).tenant.id == t;
                assert(self.tenants@[w].tenant.id == t);
            }
            assert forall|t: i64| t != id && self.has_tenant(t) implies s0.has_tenant(t) by {
                let w = choose|i: int|
                    0 <= i < self.tenants@.len() && (#[trigger] self.tenants@[i]).tenant.id == t;
                assert(w < n);
                assert(s0.tenants@[w].tenant.id == t);
            }
            assert(self.has_tenant(id));
            assert(self.spec_tenant(id) == self.tenants@.last());
            assert forall|t: i64| t != id && s0.has_tenant(t) implies self.spec_tenant(t)
                == s0.spec_tenant(t) by {
                let w1 = choose|i: int|
                    0 <= i < self.tenants@.len() && (#[trigger] self.tenants@[i]).tenant.id == t;
                let w0 = choose|i: int|
                    0 <= i < s0.tenants@.len() && (#[trigger] s0.tenants@[i]).tenant.id == t;
                assert(w1 < n);
                assert(self.tenants@[w1] == s0.tenants@[w1]);
            }
            assert(self.tenants_wf());
            assert(self.users_wf());
            assert(self.entries_wf());
        }
        Ok(id)
    }

    /// Insert a user row whose password hash is already computed. This is
    /// the deterministic half of user creation, also used when an adapter
    /// reloads a persisted store: it owes success exactly when the tenant
    /// reference resolves, the username is free and ids remain.
    pub fn insert_user_record(
        &mut self,
        tenant_id: Option<i64>,
        username: &str,
        password_hash: &str,
        is_superuser: bool,
    ) -> (r: Result<i64, VaultError>)
        requires
            old(self).wf(),
            is_superuser <==> tenant_id is None,
        ensures
            final(self).wf(),
            r == Err::<i64, VaultError>(VaultError::NotFound) <==> (tenant_id matches Some(t)
                && !old(self).has_tenant(t)),
            r == Err::<i64, VaultError>(VaultError::Duplicate) <==> ((tenant_id matches Some(t)
                ==> old(self).has_tenant(t)) && old(self).has_user(username@)),
            r is Ok <==> ((tenant_id matches Some(t) ==> old(self).has_tenant(t)) && !old(self).has_user(username@) && old(self).next_user_id < i64::MAX),
            r == Err::<i64, VaultError>(VaultError::Storage) <==> ((tenant_id matches Some(t)
                ==> old(self).has_tenant(t)) && !old(self).has_user(username@) && old(self).next_user_id == i64::MAX),
            r matches Err(e) ==> e == VaultError::NotFound || e == VaultError::Duplicate || e
                == VaultError::Storage,
            r is Err ==> *final(self) == *old(self),
            r matches Ok(id) ==> ({
                &&& id == old(self).next_user_id
                &&& final(self).next_user_id == old(self).next_user_id + 1
                &&& final(self).users@ == old(self).users@.push(final(self).users@.last())
                &&& final(self).users@.last().id == id
                &&& final(self).users@.last().tenant_id == tenant_id
                &&& final(self).users@.last().username@ == username@
                &&& final(self).users@.last().password_hash@ == password_hash@
                &&& final(self).users@.last().is_superuser == is_superuser
                &&& final(self).has_user(username@)
                &&& final(self).spec_user(username@) == final(self).users@.last()
                &&& forall|u: Seq<char>|
                    u != username@ ==> #[trigger] final(self).has_user(u) == old(self).has_user(u)
                &&& forall|u: Seq<char>|
                    u != username@ && old(self).has_user(u) ==> #[trigger] final(self).spec_user(u)
                        == old(self).spec_user(u)
                &&& final(self).tenants@ == old(self).tenants@
                &&& final(self).entries@ == old(self).entries@
                &&& final(self).next_tenant_id == old(self).next_tenant_id
            }),
    {
        if let Some(t) = tenant_id {
            if self.find_tenant(t).is_none() {
                return Err(VaultError::NotFound);
            }
        }
        if self.find_user(username).is_some() {
            return Err(VaultError::Duplicate);
        }
        if self.next_user_id == i64::MAX {
            return Err(VaultError::Storage);
        }
        let id = self.next_user_id;
        let rec = StoredUser {
            id,
            tenant_id,
            username: username.to_owned(),
            password_hash: password_hash.to_owned(),
            is_superuser,
        };
        self.users.push(rec);
        self.next_user_id = id + 1;
        proof {
            let s0 = *old(self);
            let n = s0.users@.len() as int;
            assert(self.users@.last() == self.users@[n]);
            assert forall|u: Seq<char>| s0.has_user(u) implies self.has_user(u) by {
                let w = choose|i: int|
                    0 <= i < s0.users@.len() && (#[trigger] s0.users@[i]).username@ == u;
                assert(self.users@[w].username@ == u);
            }
            assert forall|u: Seq<char>| u != username@ && self.has_user(u) implies s0.has_user(
                u,
            ) by {
                let w = choose|i: int|
                    0 <= i < self.users@.len() && (#[trigger] self.users@[i]).username@ == u;
                assert(w < n);
                assert(s0.users@[w].username@ == u);
            }
            assert(self.has_user(username@));
            assert(self.spec_user(username@) == self.users@.last());
            assert forall|u: Seq<char>| u != username@ && s0.has_user(u) implies self.spec_user(u)
                == s0.spec_user(u) by {
                let w1 = choose|i: int|
                    0 <= i < self.users@.len() && (#[trigger] self.users@[i]).username@ == u;
                assert(w1 < n);
                assert(self.users@[w1] == s0.users@[w1]);
            }
            assert forall|t: i64| s0.has_tenant(t) implies self.has_tenant(t) by {
                let w = choose|i: int|
                    0 <= i < s0.tenants@.len() && (#[trigger] s0.tenants@[i]).tenant.id == t;
                assert(self.tenants@[w].tenant.id == t);
            }
            assert(self.users_wf());
            assert(self.entries_wf());
        }
        Ok(id)
    }

    /// Create a superuser: an account with no tenant and no vault access,
    /// used only for administration. The password is hashed with a per-user
    /// random salt, distinct from any tenant encryption salt.
    pub fn create_superuser(&mut self, username: &str, password: &str) -> (r: Result<
        i64,
        VaultError,
    >)
        requires
            old(self).wf(),
        ensures
            final(self).wf(),
            r == Err::<i64, VaultError>(VaultError::Duplicate) <==> old(self).has_user(username@),
            r == Err::<i64, VaultError>(VaultError::KeyDerivation) ==> !old(self).has_user(
                username@,
            ),
            r == Err::<i64, VaultError>(VaultError::Storage) ==> !old(self).has_user(username@)
                && old(self).next_user_id == i64::MAX,
            r matches Err(e) ==> e == VaultError::Duplicate || e == VaultError::KeyDerivation || e
                == VaultError::Storage,
            r is Err ==> *final(self) == *old(self),
            r matches Ok(id) ==> ({
                &&& !old(self).has_user(username@)
                &&& id == old(self).next_user_id
                &&& final(self).users@ == old(self).users@.push(final(self).users@.last())
                &&& final(self).users@.last().id == id
                &&& final(self).users@.last().tenant_id is None
                &&& final(self).users@.last().username@ == username@
                &&& final(self).users@.last().is_superuser
                &&& phc_verifies(password@, final(self).users@.last().password_hash@)
                &&& final(self).has_user(username@)
                &&& final(self).spec_user(username@) == final(self).users@.last()
                &&& forall|u: Seq<char>|
                    u != username@ ==> #[trigger] final(self).has_user(u) == old(self).has_user(u)
                &&& forall|u: Seq<char>|
                    u != username@ && old(self).has_user(u) ==> #[trigger] final(self).spec_user(u)
                        == old(self).spec_user(u)
                &&& final(self).tenants@ == old(self).tenants@
                &&& final(self).entries@ == old(self).entries@
                &&& final(self).next_tenant_id == old(self).next_tenant_id
            }),
    {
        if self.find_user(username).is_some() {
            return Err(VaultError::Duplicate);
        }
        let hash = match hash_password(password) {
            Ok(h) => h,
            Err(e) => {
                return Err(e);
            },
        };
        self.insert_user_record(None, username, hash.as_str(), true)
    }

    /// Create a user belonging to one tenant. The password is hashed with a
    /// per-user random salt; it is also, at login, the input from which the
    /// tenant's encryption key is derived.
    pub fn create_tenant_user(&mut self, tenant_id: i64, username: &str, password: &str) -> (r:
        Result<i64, VaultError>)
        requires
            old(self).wf(),
        ensures
            final(self).wf(),
            r == Err::<i64, VaultError>(VaultError::NotFound) <==> !old(self).has_tenant(
                tenant_id,
            ),
            r == Err::<i64, VaultError>(VaultError::Duplicate) <==> (old(self).has_tenant(
                tenant_id,
            ) && old(self).has_user(username@)),
            r == Err::<i64, VaultError>(VaultError::KeyDerivation) ==> old(self).has_tenant(
                tenant_id,
            ) && !old(self).has_user(username@),
            r == Err::<i64, VaultError>(VaultError::Storage) ==> old(self).has_tenant(tenant_id)
                && !old(self).has_user(username@) && old(self).next_user_id == i64::MAX,
            r matches Err(e) ==> e == VaultError::NotFound || e == VaultError::Duplicate || e
                == VaultError::KeyDerivation || e == VaultError::Storage,
            r is Err ==> *final(self) == *old(self),
            r matches Ok(id) ==> ({
                &&& old(self).has_tenant(tenant_id)
                &&& !old(self).has_user(username@)
                &&& id == old(self).next_user_id
                &&& final(self).users@ == old(self).users@.push(final(self).users@.last())
                &&& final(self).users@.last().id == id
                &&& final(self).users@.last().tenant_id == Some(tenant_id)
                &&& final(self).users@.last().username@ == username@
                &&& !final(self).users@.last().is_superuser
                &&& phc_verifies(password@, final(self).users@.last().password_hash@)
                &&& final(self).has_user(username@)
                &&& final(self).spec_user(username@) == final(self).users@.last()
                &&& forall|u: Seq<char>|
                    u != username@ ==> #[trigger] final(self).has_user(u) == old(self).has_user(u)
                &&& forall|u: Seq<char>|
                    u != username@ && old(self).has_user(u) ==> #[trigger] final(self).spec_user(u)
                        == old(self).spec_user(u)
                &&& final(self).tenants@ == old(self).tenants@
                &&& final(self).entries@ == old(self).entries@
                &&& final(self).next_tenant_id == old(self).next_tenant_id
            }),
    {
        if self.find_tenant(tenant_id).is_none() {
            return Err(VaultError::NotFound);
        }
        if self.find_user(username).is_some() {
            return Err(VaultError::Duplicate);
        }
        let hash = match hash_password(password) {
            Ok(h) => h,
            Err(e) => {
                return Err(e);
            },
        };
        self.insert_user_record(Some(tenant_id), username, hash.as_str(), false)
    }

    /// Verify a username/password pair. An unknown username and a wrong
    /// password fail with the identical error value, so a caller cannot
    /// enumerate valid usernames.
    pub fn authenticate_user(&self, username: &str, password: &str) -> (r: Result<
        User,
        VaultError,
    >)
        requires
            self.wf(),
        ensures
            r is Ok <==> (self.has_user(username@) && phc_verifies(
                password@,
                self.spec_user(username@).password_hash@,
            )),
            r matches Ok(u) ==> ({
                &&& u.id == self.spec_user(username@).id
                &&& u.tenant_id == self.spec_user(username@).tenant_id
                &&& u.username@ == username@
                &&& u.is_superuser == self.spec_user(username@).is_superuser
            }),
            r matches Err(e) ==> e == VaultError::InvalidCredentials,
    {
        let i = match self.find_user(username) {
            Some(i) => i,
            None => {
                return Err(VaultError::InvalidCredentials);
            },
        };
        proof {
            assert(self.spec_user(username@) == self.users@[i as int]);
        }
        let u = &self.users[i];
        if verify_password(password, u.password_hash.as_str()) {
            Ok(
                User {
                    id: u.id,
                    tenant_id: u.tenant_id,
                    username: u.username.clone(),
                    is_superuser: u.is_superuser,
                },
            )
        } else {
            Err(VaultError::InvalidCredentials)
        }
    }

    /// The tenant's immutable 32-byte encryption salt.
    pub fn get_tenant_salt(&self, tenant_id: i64) -> (r: Result<[u8; 32], VaultError>)
        requires
            self.wf(),
        ensures
            r is Ok <==> self.has_tenant(tenant_id),
            r matches Ok(s) ==> s == self.spec_tenant(tenant_id).salt,
            r matches Err(e) ==> e == VaultError::NotFound,
    {
        match self.find_tenant(tenant_id) {
            Some(i) => {
                proof {
                    assert(self.spec_tenant(tenant_id) == self.tenants@[i as int]);
                }
                Ok(self.tenants[i].salt)
            },
            None => Err(VaultError::NotFound),
        }
    }

    /// The public record of one tenant.
    pub fn get_tenant(&self, tenant_id: i64) -> (r: Option<Tenant>)
        requires
            self.wf(),
        ensures
            r is Some <==> self.has_tenant(tenant_id),
            r matches Some(t) ==> t == self.spec_tenant(tenant_id).tenant,
    {
        match self.find_tenant(tenant_id) {
            Some(i) => {
                proof {
                    assert(self.spec_tenant(tenant_id) == self.tenants@[i as int]);
                }
                let t = &self.tenants[i].tenant;
                Some(Tenant { id: t.id, name: t.name.clone(), created_at: t.created_at.clone() })
            },
            None => None,
        }
    }

    /// All tenants, sorted ascending by name: as a multiset, exactly the
    /// stored tenants, so the listing is complete and free of duplicates
    /// and of invented rows.
    #[verifier::rlimit(100)]
    pub fn list_tenants(&self) -> (r: Vec<Tenant>)
        requires
            self.wf(),
        ensures
            r@.len() == self.tenants@.len(),
            r@.to_multiset() == tenant_rows(self.tenants@).to_multiset(),
            sorted_by_name(r@),
    {
        let ghost stored = self.tenants@;
        let mut out: Vec<Tenant> = Vec::new();
        let mut i: usize = 0;
        while i < self.tenants.len()
            invariant
                stored == self.tenants@,
                i <= stored.len(),
                out@.len() == i,
                out@.to_multiset() == tenant_rows(stored.take(i as int)).to_multiset(),
                sorted_by_name(out@),
            decreases stored.len() - i,
        {
            let src_row = &self.tenants[i].tenant;
            let t = Tenant {
                id: src_row.id,
                name: src_row.name.clone(),
                created_at: src_row.created_at.clone(),
            };
            let ghost gt = t;
            let ghost out0 = out@;
            proof {
                assert(gt == stored[i as int].tenant);
            }
            let res = Self::insert_sorted(out, t);
            out = res.0;
            let ghost p = res.1 as int;
            proof {
                lemma_insert_to_multiset(out0, p, gt);
                let rows0 = tenant_rows(stored.take(i as int));
                assert(stored.take(i + 1) =~= stored.take(i as int).push(stored[i as int]));
                assert(tenant_rows(stored.take(i + 1)) =~= rows0.push(gt));
                assert(rows0.push(gt).to_multiset() =~= rows0.to_multiset().insert(gt));
                assert(out@.to_multiset() == tenant_rows(stored.take(i + 1)).to_multiset());
            }
            i += 1;
        }
        proof {
            assert(stored.take(stored.len() as int) =~= stored);
        }
        out
    }

    /// Insert one tenant into a name-sorted listing, keeping it sorted, and
    /// say where it went in.
    #[verifier::rlimit(100)]
    fn insert_sorted(out: Vec<Tenant>, t: Tenant) -> (r: (Vec<Tenant>, usize))
        requires
            sorted_by_name(out@),
        ensures
            r.1 <= out@.len(),
            r.0@ == out@.insert(r.1 as int, t),
            sorted_by_name(r.0@),
    {
        let ghost gt = t;
        let ghost out0 = out@;
        let mut out = out;
        let p = Self::insert_pos(&out, t.name.as_str());
        out.insert(p, t);
        proof {
            let pi = p as int;
            out0.insert_ensures(pi, gt);
            assert(out@ == out0.insert(pi, gt));
            assert(out@[pi] == gt);
            assert(forall|k: int| 0 <= k < pi ==> #[trigger] out@[k] == out0[k]);
            assert(forall|k: int| pi <= k < out0.len() ==> #[trigger] out@[k + 1] == out0[k]);
            assert forall|x: int, y: int| 0 <= x < y < out@.len() implies name_le(
                (#[trigger] out@[x]).name@,
                (#[trigger] out@[y]).name@,
            ) by {
                if x < pi && y == pi {
                    assert(out@[x] == out0[x]);
                    assert(name_le(out0[x].name@, gt.name@));
                } else if x < pi && y > pi {
                    assert(out@[x] == out0[x] && out@[y] == out0[y - 1]);
                    assert(x < y - 1);
                    assert(name_le(out0[x].name@, out0[y - 1].name@));
                } else if x == pi && y > pi {
                    assert(out@[y] == out0[y - 1]);
                    assert(!name_le(out0[pi].name@, gt.name@));
                    lemma_name_le_total(out0[pi].name@, gt.name@);
                    assert(name_le(gt.name@, out0[pi].name@));
                    if y - 1 > pi {
                        assert(name_le(out0[pi].name@, out0[y - 1].name@));
                        lemma_name_le_trans(gt.name@, out0[pi].name@, out0[y - 1].name@);
                    }
                } else if x > pi {
                    assert(out@[x] == out0[x - 1] && out@[y] == out0[y - 1]);
                    assert(name_le(out0[x - 1].name@, out0[y - 1].name@));
                } else {
                    assert(out@[x] == out0[x] && out@[y] == out0[y]);
                }
            }
        }
        (out, p)
    }

    /// The position before the first element whose name follows `name`, in
    /// a name-sorted listing.
    fn insert_pos(out: &Vec<Tenant>, name: &str) -> (p: usize)
        ensures
            p <= out@.len(),
            forall|k: int| 0 <= k < p ==> name_le((#[trigger] out@[k]).name@, name@),
            p < out@.len() ==> !name_le(out@[p as int].name@, name@),
    {
        let mut p: usize = 0;
        while p < out.len()
            invariant
                p <= out@.len(),
                forall|k: int| 0 <= k < p ==> name_le((#[trigger] out@[k]).name@, name@),
            decreases out@.len() - p,
        {
            if !str_le(out[p].name.as_str(), name) {
                return p;
            }
            p += 1;
        }
        p
    }

    /// The stored entry with this key, if any. All entry reads are
    /// parameterized by tenant id; there is no unscoped read.
    pub fn lookup_entry(&self, tenant_id: i64, name: &str) -> (r: Option<&StoredEntry>)
        requires
            self.wf(),
        ensures
            r is Some <==> self.has_entry(tenant_id, name@),
            r matches Some(e) ==> *e == self.spec_entry(tenant_id, name@),
    {
        match self.find_entry(tenant_id, name) {
            Some(i) => {
                proof {
                    assert(self.spec_entry(tenant_id, name@) == self.entries@[i as int]);
                }
                Some(&self.entries[i])
            },
            None => None,
        }
    }

    /// Write an entry: replace the ciphertext and nonce of an existing
    /// (tenant_id, name) row, or add the row. No partial state is visible,
    /// and no other row changes.
    #[verifier::rlimit(100)]
    pub fn upsert_entry(
        &mut self,
        tenant_id: i64,
        name: &str,
        nonce: [u8; 12],
        ciphertext: Vec<u8>,
    ) -> (r: Result<(), VaultError>)
        requires
            old(self).wf(),
        ensures
            final(self).wf(),
            r is Ok <==> old(self).has_tenant(tenant_id),
            r matches Err(e) ==> e == VaultError::NotFound,
            r is Err ==> *final(self) == *old(self),
            r is Ok ==> ({
                &&& final(self).has_entry(tenant_id, name@)
                &&& final(self).spec_entry(tenant_id, name@).tenant_id == tenant_id
                &&& final(self).spec_entry(tenant_id, name@).name@ == name@
                &&& final(self).spec_entry(tenant_id, name@).nonce == nonce
                &&& final(self).spec_entry(tenant_id, name@).ciphertext@ == ciphertext@
                &&& forall|t: i64, n: Seq<char>|
                    !(t == tenant_id && n == name@) ==> #[trigger] final(self).has_entry(t, n)
                        == old(self).has_entry(t, n)
                &&& forall|t: i64, n: Seq<char>|
                    !(t == tenant_id && n == name@) && old(self).has_entry(t, n)
                        ==> #[trigger] final(self).spec_entry(t, n) == old(self).spec_entry(t, n)
                &&& final(self).tenants@ == old(self).tenants@
                &&& final(self).users@ == old(self).users@
                &&& final(self).next_tenant_id == old(self).next_tenant_id
                &&& final(self).next_user_id == old(self).next_user_id
            }),
    {
        if self.find_tenant(tenant_id).is_none() {
            return Err(VaultError::NotFound);
        }
        let ghost e0 = self.entries@;
        if let Some(j) = self.find_entry(tenant_id, name) {
            self.entries.remove(j);
            proof {
                e0.remove_ensures(j as int);
            }
        }
        let ghost mid = self.entries@;
        let rec = StoredEntry { tenant_id, name: name.to_owned(), nonce, ciphertext };
        let ghost grec = rec;
        self.entries.push(rec);
        proof {
            let s0 = *old(self);
            let e1 = self.entries@;
            let last = e1.len() - 1;
            assert(e1 == mid.push(grec));
            assert(e1[last] == grec);
            assert(entry_matches(e1[last], tenant_id, name@));
            assert forall|k: int|
                0 <= k < mid.len() implies !entry_matches(
                #[trigger] mid[k],
                tenant_id,
                name@,
            ) && exists|m: int| 0 <= m < e0.len() && mid[k] == e0[m] by {
                if mid != e0 {
                    let j = choose|j: int|
                        0 <= j < e0.len() && entry_matches(#[trigger] e0[j], tenant_id, name@)
                            && mid == e0.remove(j);
                    e0.remove_ensures(j);
                    if k < j {
                        assert(mid[k] == e0[k]);
                    } else {
                        assert(mid[k] == e0[k + 1]);
                        assert(!entry_same_key(e0[j], e0[k + 1]));
                    }
                }
            }
            assert(self.has_entry(tenant_id, name@));
            assert(self.spec_entry(tenant_id, name@) == e1[last]);
            assert forall|t: i64, n: Seq<char>|
                !(t == tenant_id && n == name@) && s0.has_entry(t, n) implies self.has_entry(
                t,
                n,
            ) by {
                let m = choose|i: int|
                    0 <= i < e0.len() && entry_matches(#[trigger] e0[i], t, n);
                if mid == e0 {
                    assert(e1[m] == mid[m]);
                    assert(entry_matches(e1[m], t, n));
                } else {
                    let j = choose|j: int|
                        0 <= j < e0.len() && entry_matches(#[trigger] e0[j], tenant_id, name@)
                            && mid == e0.remove(j);
                    e0.remove_ensures(j);
                    if m < j {
                        assert(e1[m] == mid[m] && mid[m] == e0[m]);
                        assert(entry_matches(e1[m], t, n));
                    } else {
                        assert(m != j);
                        assert(e1[m - 1] == mid[m - 1] && mid[m - 1] == e0[m]);
                        assert(entry_matches(e1[m - 1], t, n));
                    }
                }
            }
            assert forall|t: i64, n: Seq<char>|
                !(t == tenant_id && n == name@) && self.has_entry(t, n) implies s0.has_entry(
                t,
                n,
            ) by {
                let k = choose|i: int|
                    0 <= i < e1.len() && entry_matches(#[trigger] e1[i], t, n);
                assert(k != last);
                assert(mid[k] == e1[k]);
                let m = choose|m: int| 0 <= m < e0.len() && mid[k] == e0[m];
                assert(entry_matches(e0[m], t, n));
            }
            assert forall|t: i64, n: Seq<char>|
                !(t == tenant_id && n == name@) && s0.has_entry(t, n) implies #[trigger] self
                .spec_entry(t, n) == s0.spec_entry(t, n) by {
                let k = choose|i: int|
                    0 <= i < e1.len() && entry_matches(#[trigger] e1[i], t, n);
                assert(k != last);
                assert(mid[k] == e1[k]);
                let m = choose|m: int| 0 <= m < e0.len() && mid[k] == e0[m];
                assert(entry_matches(e0[m], t, n));
                assert(self.spec_entry(t, n) == e1[k]);
                assert(s0.spec_entry(t, n) == e0[m]);
            }
            // the invariant: unique keys, and every row owned by a tenant
            assert forall|a: int, b: int| 0 <= a < b < e1.len() implies !entry_same_key(
                #[trigger] e1[a],
                #[trigger] e1[b],
            ) by {
                if b == last {
                    assert(mid[a] == e1[a]);
                    assert(!entry_matches(mid[a], tenant_id, name@));
                } else {
                    assert(mid[a] == e1[a] && mid[b] == e1[b]);
                    let ma = choose|m: int| 0 <= m < e0.len() && mid[a] == e0[m];
                    let mb = choose|m: int| 0 <= m < e0.len() && mid[b] == e0[m];
                    if mid != e0 {
                        let j = choose|j: int|
                            0 <= j < e0.len() && entry_matches(#[trigger] e0[j], tenant_id, name@)
                                && mid == e0.remove(j);
                        e0.remove_ensures(j);
                        if a < j {
                            assert(mid[a] == e0[a]);
                        } else {
                            assert(mid[a] == e0[a + 1]);
                        }
                        if b < j {
                            assert(mid[b] == e0[b]);
                        } else {
                            assert(mid[b] == e0[b + 1]);
                        }
                    } else {
                        assert(mid[a] == e0[a] && mid[b] == e0[b]);
                    }
                }
            }
            assert forall|k: int| 0 <= k < e1.len() implies self.has_tenant(
                (#[trigger] e1[k]).tenant_id,
            ) by {
                if k == last {
                    assert(s0.has_tenant(tenant_id));
                    let w = choose|i: int|
                        0 <= i < s0.tenants@.len() && (#[trigger] s0.tenants@[i]).tenant.id
                            == tenant_id;
                    assert(self.tenants@[w].tenant.id == tenant_id);
                } else {
                    assert(mid[k] == e1[k]);
                    let m = choose|m: int| 0 <= m < e0.len() && mid[k] == e0[m];
                    let tid = e0[m].tenant_id;
                    assert(s0.has_tenant(tid));
                    let w = choose|i: int|
                        0 <= i < s0.tenants@.len() && (#[trigger] s0.tenants@[i]).tenant.id == tid;
                    assert(self.tenants@[w].tenant.id == tid);
                }
            }
        }
        Ok(())
    }

    /// Remove one entry, or report that it is absent. No other row changes.
    #[verifier::rlimit(100)]
    pub fn delete_entry_for_tenant(&mut self, tenant_id: i64, name: &str) -> (r: Result<
        (),
        VaultError,
    >)
        requires
            old(self).wf(),
        ensures
            final(self).wf(),
            r is Ok <==> old(self).has_entry(tenant_id, name@),
            r matches Err(e) ==> e == VaultError::NotFound,
            r is Err ==> *final(self) == *old(self),
            r is Ok ==> ({
                &&& !final(self).has_entry(tenant_id, name@)
                &&& forall|t: i64, n: Seq<char>|
                    !(t == tenant_id && n == name@) ==> #[trigger] final(self).has_entry(t, n)
                        == old(self).has_entry(t, n)
                &&& forall|t: i64, n: Seq<char>|
                    !(t == tenant_id && n == name@) && old(self).has_entry(t, n)
                        ==> #[trigger] final(self).spec_entry(t, n) == old(self).spec_entry(t, n)
                &&& final(self).entries@.len() == old(self).entries@.len() - 1
                &&& final(self).tenants@ == old(self).tenants@
                &&& final(self).users@ == old(self).users@
                &&& final(self).next_tenant_id == old(self).next_tenant_id
                &&& final(self).next_user_id == old(self).next_user_id
            }),
    {
        let j = match self.find_entry(tenant_id, name) {
            Some(j) => j,
            None => {
                return Err(VaultError::NotFound);
            },
        };
        let ghost e0 = self.entries@;
        self.entries.remove(j);
        proof {
            let s0 = *old(self);
            let e1 = self.entries@;
            let j = j as int;
            e0.remove_ensures(j);
            assert(forall|k: int| 0 <= k < j ==> #[trigger] e1[k] == e0[k]);
            assert(forall|k: int| j <= k < e1.len() ==> #[trigger] e1[k] == e0[k + 1]);
            assert forall|t: i64, n: Seq<char>|
                !(t == tenant_id && n == name@) && s0.has_entry(t, n) implies self.has_entry(
                t,
                n,
            ) by {
                let m = choose|i: int|
                    0 <= i < e0.len() && entry_matches(#[trigger] e0[i], t, n);
                assert(m != j);
                if m < j {
                    assert(entry_matches(e1[m], t, n));
                } else {
                    assert(entry_matches(e1[m - 1], t, n));
                }
            }
            assert forall|t: i64, n: Seq<char>| self.has_entry(t, n) implies s0.has_entry(t, n)
                && !(t == tenant_id && n == name@) by {
                let k = choose|i: int|
                    0 <= i < e1.len() && entry_matches(#[trigger] e1[i], t, n);
                if k < j {
                    assert(entry_matches(e0[k], t, n));
                    assert(!entry_same_key(e0[k], e0[j]));
                } else {
                    assert(entry_matches(e0[k + 1], t, n));
                    assert(!entry_same_key(e0[j], e0[k + 1]));
                }
            }
            assert forall|t: i64, n: Seq<char>|
                !(t == tenant_id && n == name@) && s0.has_entry(t, n) implies #[trigger] self
                .spec_entry(t, n) == s0.spec_entry(t, n) by {
                let k = choose|i: int|
                    0 <= i < e1.len() && entry_matches(#[trigger] e1[i], t, n);
                let m = choose|i: int|
                    0 <= i < e0.len() && entry_matches(#[trigger] e0[i], t, n);
                assert(self.spec_entry(t, n) == e1[k]);
                assert(s0.spec_entry(t, n) == e0[m]);
                if k < j {
                    assert(e1[k] == e0[k]);
                } else {
                    assert(e1[k] == e0[k + 1]);
                }
            }
            assert forall|a: int, b: int| 0 <= a < b < e1.len() implies !entry_same_key(
                #[trigger] e1[a],
                #[trigger] e1[b],
            ) by {
                if a < j {
                    assert(e1[a] == e0[a]);
                } else {
                    assert(e1[a] == e0[a + 1]);
                }
                if b < j {
                    assert(e1[b] == e0[b]);
                } else {
                    assert(e1[b] == e0[b + 1]);
                }
            }
            assert forall|k: int| 0 <= k < e1.len() implies self.has_tenant(
                (#[trigger] e1[k]).tenant_id,
            ) by {
                if k < j {
                    assert(e1[k] == e0[k]);
                } else {
                    assert(e1[k] == e0[k + 1]);
                }
                let tid = e1[k].tenant_id;
                assert(s0.has_tenant(tid));
                let w = choose|i: int|
                    0 <= i < s0.tenants@.len() && (#[trigger] s0.tenants@[i]).tenant.id == tid;
                assert(self.tenants@[w].tenant.id == tid);
            }
            assert forall|t: i64| s0.has_tenant(t) implies self.has_tenant(t) by {
                let w = choose|i: int|
                    0 <= i < s0.tenants@.len() && (#[trigger] s0.tenants@[i]).tenant.id == t;
                assert(self.tenants@[w].tenant.id == t);
            }
            assert(self.tenants_wf());
            assert(self.users_wf());
        }
        Ok(())
    }

    /// Delete a tenant and, in cascade, its users, its salt and all its
    /// entries. Every other tenant's rows survive untouched.
    #[verifier::rlimit(100)]
    pub fn delete_tenant(&mut self, tenant_id: i64) -> (r: Result<(), VaultError>)
        requires
            old(self).wf(),
        ensures
            final(self).wf(),
            r is Ok <==> old(self).has_tenant(tenant_id),
            r matches Err(e) ==> e == VaultError::NotFound,
            r is Err ==> *final(self) == *old(self),
            r is Ok ==> ({
                &&& !final(self).has_tenant(tenant_id)
                &&& forall|n: Seq<char>| !(#[trigger] final(self).has_entry(tenant_id, n))
                &&& forall|u: Seq<char>|
                    old(self).has_user(u) && old(self).spec_user(u).tenant_id == Some(tenant_id)
                        ==> !(#[trigger] final(self).has_user(u))
                &&& forall|t: i64|
                    t != tenant_id ==> #[trigger] final(self).has_tenant(t) == old(self).has_tenant(t)
                &&& forall|t: i64|
                    t != tenant_id && old(self).has_tenant(t) ==> #[trigger] final(self).spec_tenant(t) == old(self).spec_tenant(t)
                &&& forall|u: Seq<char>|
                    old(self).has_user(u) && old(self).spec_user(u).tenant_id != Some(tenant_id)
                        ==> #[trigger] final(self).has_user(u) && final(self).spec_user(u) == old(self).spec_user(u)
                &&& forall|u: Seq<char>| #[trigger] final(self).has_user(u) ==> old(self).has_user(u)
                &&& forall|t: i64, n: Seq<char>|
                    t != tenant_id ==> #[trigger] final(self).has_entry(t, n) == old(self).has_entry(t, n)
                &&& forall|t: i64, n: Seq<char>|
                    t != tenant_id && old(self).has_entry(t, n) ==> #[trigger] final(self).spec_entry(t, n) == old(self).spec_entry(t, n)
                &&& final(self).users@ == users_without_tenant(old(self).users@, tenant_id)
                &&& final(self).entries@ == entries_without_tenant(old(self).entries@, tenant_id)
                &&& final(self).tenants@.len() == old(self).tenants@.len() - 1
                &&& final(self).next_tenant_id == old(self).next_tenant_id
                &&& final(self).next_user_id == old(self).next_user_id
            }),
    {
        let j = match self.find_tenant(tenant_id) {
            Some(j) => j,
            None => {
                return Err(VaultError::NotFound);
            },
        };
        let ghost t0 = self.tenants@;
        let ghost u0 = self.users@;
        let ghost e0 = self.entries@;
        self.tenants.remove(j);
        let mut users_tmp: Vec<StoredUser> = Vec::new();
        core::mem::swap(&mut users_tmp, &mut self.users);
        let users_kept = drop_users_of_tenant(users_tmp, tenant_id);
        self.users = users_kept;
        let mut entries_tmp: Vec<StoredEntry> = Vec::new();
        core::mem::swap(&mut entries_tmp, &mut self.entries);
        let entries_kept = drop_entries_of_tenant(entries_tmp, tenant_id);
        self.entries = entries_kept;
        proof {
            let s0 = *old(self);
            let j = j as int;
            let t1 = self.tenants@;
            let u1 = self.users@;
            let e1 = self.entries@;
            let upred = (|u: StoredUser| u.tenant_id != Some(tenant_id));
            let epred = (|e: StoredEntry| e.tenant_id != tenant_id);
            t0.remove_ensures(j);
            assert(forall|k: int| 0 <= k < j ==> #[trigger] t1[k] == t0[k]);
            assert(forall|k: int| j <= k < t1.len() ==> #[trigger] t1[k] == t0[k + 1]);
            // the tenant itself is gone, every other one survives in place
            assert forall|k: int| 0 <= k < t1.len() implies (#[trigger] t1[k]).tenant.id
                != tenant_id by {
                if k < j {
                    assert(t1[k] == t0[k]);
                } else {
                    assert(t1[k] == t0[k + 1]);
                }
            }
            assert(!self.has_tenant(tenant_id));
            assert forall|t: i64| t != tenant_id && s0.has_tenant(t) implies self.has_tenant(
                t,
            ) by {
                let m = choose|i: int|
                    0 <= i < t0.len() && (#[trigger] t0[i]).tenant.id == t;
                assert(m != j);
                if m < j {
                    assert(t1[m] == t0[m]);
                } else {
                    assert(t1[m - 1] == t0[m]);
                }
            }
            assert forall|t: i64| self.has_tenant(t) implies s0.has_tenant(t) by {
                let k = choose|i: int|
                    0 <= i < t1.len() && (#[trigger] t1[i]).tenant.id == t;
                if k < j {
                    assert(t1[k] == t0[k]);
                } else {
                    assert(t1[k] == t0[k + 1]);
                }
            }
            assert forall|t: i64| t != tenant_id && s0.has_tenant(t) implies #[trigger] self
                .spec_tenant(t) == s0.spec_tenant(t) by {
                let k = choose|i: int|
                    0 <= i < t1.len() && (#[trigger] t1[i]).tenant.id == t;
                let m = choose|i: int|
                    0 <= i < t0.len() && (#[trigger] t0[i]).tenant.id == t;
                assert(self.spec_tenant(t) == t1[k]);
                assert(s0.spec_tenant(t) == t0[m]);
                if k < j {
                    assert(t1[k] == t0[k]);
                } else {
                    assert(t1[k] == t0[k + 1]);
                }
            }
            assert forall|a: int, b: int| 0 <= a < b < t1.len() implies (#[trigger] t1[a]).tenant.id
                != (#[trigger] t1[b]).tenant.id && t1[a].tenant.name@ != t1[b].tenant.name@ by {
                if a < j {
                    assert(t1[a] == t0[a]);
                } else {
                    assert(t1[a] == t0[a + 1]);
                }
                if b < j {
                    assert(t1[b] == t0[b]);
                } else {
                    assert(t1[b] == t0[b + 1]);
                }
            }
            assert forall|k: int| 0 <= k < t1.len() implies 0 < (#[trigger] t1[k]).tenant.id
                < self.next_tenant_id && t1[k].tenant.name@.len() > 0 by {
                if k < j {
                    assert(t1[k] == t0[k]);
                } else {
                    assert(t1[k] == t0[k + 1]);
                }
            }
            assert(self.tenants_wf());
            // users: every surviving row is an old row of another tenant
            assert forall|k: int| 0 <= k < u1.len() implies (#[trigger] u1[k]).tenant_id != Some(
                tenant_id,
            ) && exists|m: int| 0 <= m < u0.len() && u0[m] == u1[k] by {
                u0.lemma_filter_pred(upred, k);
                lemma_filter_member(u0, upred, k);
            }
            assert forall|u: Seq<char>|
                s0.has_user(u) && s0.spec_user(u).tenant_id != Some(tenant_id) implies #[trigger] self
                .has_user(u) && self.spec_user(u) == s0.spec_user(u) by {
                let m = choose|i: int|
                    0 <= i < u0.len() && (#[trigger] u0[i]).username@ == u;
                assert(s0.spec_user(u) == u0[m]);
                u0.lemma_filter_contains(upred, m);
                let k = choose|k: int| 0 <= k < u1.len() && u1[k] == u0[m];
                assert(u1[k].username@ == u);
                assert(self.has_user(u));
                let k2 = choose|i: int|
                    0 <= i < u1.len() && (#[trigger] u1[i]).username@ == u;
                let m2 = choose|i: int| 0 <= i < u0.len() && u0[i] == u1[k2];
                assert(u0[m2].username@ == u);
                assert(u0[m2] == u0[m]);
            }
            assert forall|u: Seq<char>| #[trigger] self.has_user(u) implies s0.has_user(u) by {
                let k = choose|i: int|
                    0 <= i < u1.len() && (#[trigger] u1[i]).username@ == u;
                let m = choose|i: int| 0 <= i < u0.len() && u0[i] == u1[k];
                assert(u0[m].username@ == u);
            }
            assert forall|u: Seq<char>|
                s0.has_user(u) && s0.spec_user(u).tenant_id == Some(tenant_id) implies !(
            #[trigger] self.has_user(u)) by {
                if self.has_user(u) {
                    let k = choose|i: int|
                        0 <= i < u1.len() && (#[trigger] u1[i]).username@ == u;
                    let m = choose|i: int| 0 <= i < u0.len() && u0[i] == u1[k];
                    let m0 = choose|i: int|
                        0 <= i < u0.len() && (#[trigger] u0[i]).username@ == u;
                    assert(u0[m].username@ == u);
                    assert(u0[m] == u0[m0]);
                    assert(u1[k].tenant_id != Some(tenant_id));
                }
            }
            lemma_filter_pairwise(
                u0,
                upred,
                |a: StoredUser, b: StoredUser| a.id == b.id || a.username@ == b.username@,
            );
            assert forall|k: int| 0 <= k < u1.len() implies 0 < (#[trigger] u1[k]).id
                < self.next_user_id && (u1[k].is_superuser <==> u1[k].tenant_id is None) && (u1[k].tenant_id matches Some(t) ==> self.has_tenant(t)) by {
                let m = choose|i: int| 0 <= i < u0.len() && u0[i] == u1[k];
                assert(u0[m] == u1[k]);
                if u1[k].tenant_id is Some {
                    let t = u1[k].tenant_id->0;
                    assert(s0.has_tenant(t));
                    assert(t != tenant_id);
                }
            }
            assert(self.users_wf());
            // entries: same shape as users
            assert forall|k: int| 0 <= k < e1.len() implies (#[trigger] e1[k]).tenant_id
                != tenant_id && exists|m: int| 0 <= m < e0.len() && e0[m] == e1[k] by {
                e0.lemma_filter_pred(epred, k);
                lemma_filter_member(e0, epred, k);
            }
            assert forall|n: Seq<char>| !(#[trigger] self.has_entry(tenant_id, n)) by {
                if self.has_entry(tenant_id, n) {
                    let k = choose|i: int|
                        0 <= i < e1.len() && entry_matches(#[trigger] e1[i], tenant_id, n);
                    assert(e1[k].tenant_id != tenant_id);
                }
            }
            assert forall|t: i64, n: Seq<char>|
                t != tenant_id && s0.has_entry(t, n) implies #[trigger] self.has_entry(t, n)
                && self.spec_entry(t, n) == s0.spec_entry(t, n) by {
                let m = choose|i: int|
                    0 <= i < e0.len() && entry_matches(#[trigger] e0[i], t, n);
                assert(s0.spec_entry(t, n) == e0[m]);
                e0.lemma_filter_contains(epred, m);
                let k = choose|k: int| 0 <= k < e1.len() && e1[k] == e0[m];
                assert(entry_matches(e1[k], t, n));
                assert(self.has_entry(t, n));
                let k2 = choose|i: int|
                    0 <= i < e1.len() && entry_matches(#[trigger] e1[i], t, n);
                let m2 = choose|i: int| 0 <= i < e0.len() && e0[i] == e1[k2];
                assert(entry_matches(e0[m2], t, n));
                assert(e0[m2] == e0[m]);
            }
            assert forall|t: i64, n: Seq<char>| #[trigger] self.has_entry(t, n) implies s0
                .has_entry(t, n) by {
                let k = choose|i: int|
                    0 <= i < e1.len() && entry_matches(#[trigger] e1[i], t, n);
                let m = choose|i: int| 0 <= i < e0.len() && e0[i] == e1[k];
                assert(entry_matches(e0[m], t, n));
            }
            lemma_filter_pairwise(e0, epred, |a: StoredEntry, b: StoredEntry| entry_same_key(a, b));
            assert forall|k: int| 0 <= k < e1.len() implies self.has_tenant(
                (#[trigger] e1[k]).tenant_id,
            ) by {
                let m = choose|i: int| 0 <= i < e0.len() && e0[i] == e1[k];
                assert(e0[m] == e1[k]);
                assert(s0.has_tenant(e0[m].tenant_id));
                assert(e1[k].tenant_id != tenant_id);
            }
            assert(self.entries_wf());
            assert forall|t: i64, n: Seq<char>| t != tenant_id implies #[trigger] self.has_entry(
                t,
                n,
            ) == s0.has_entry(t, n) by {
                if s0.has_entry(t, n) {
                    assert(self.has_entry(t, n));
                }
                if self.has_entry(t, n) {
                    assert(s0.has_entry(t, n));
                }
            }
            assert forall|t: i64, n: Seq<char>|
                t != tenant_id && s0.has_entry(t, n) implies #[trigger] self.spec_entry(t, n)
                    == s0.spec_entry(t, n) by {
                assert(self.has_entry(t, n));
            }
        }
        Ok(())
    }

    /// Reinsert a persisted tenant row with its original id and salt, when
    /// an adapter reloads a store. The id counter moves past the id.
    pub fn restore_tenant(&mut self, tenant: Tenant, salt: &[u8; 32]) -> (r: Result<
        (),
        VaultError,
    >)
        requires
            old(self).wf(),
        ensures
            final(self).wf(),
            r == Err::<(), VaultError>(VaultError::Storage) <==> (tenant.id < 1 || tenant.id
                == i64::MAX || tenant.name@.len() == 0),
            r == Err::<(), VaultError>(VaultError::Duplicate) <==> (1 <= tenant.id < i64::MAX
                && tenant.name@.len() > 0 && (old(self).has_tenant(tenant.id) || old(self).tenant_name_taken(tenant.name@))),
            r matches Err(e) ==> e == VaultError::Storage || e == VaultError::Duplicate,
            r is Err ==> *final(self) == *old(self),
            r is Ok ==> ({
                &&& final(self).tenants@ == old(self).tenants@.push(final(self).tenants@.last())
                &&& final(self).tenants@.last().tenant == tenant
                &&& final(self).tenants@.last().salt == *salt
                &&& final(self).has_tenant(tenant.id)
                &&& final(self).users@ == old(self).users@
                &&& final(self).entries@ == old(self).entries@
                &&& final(self).next_user_id == old(self).next_user_id
                &&& tenant.id >= old(self).next_tenant_id ==> final(self).next_tenant_id
                    == tenant.id + 1
                &&& tenant.id < old(self).next_tenant_id ==> final(self).next_tenant_id == old(self).next_tenant_id
            }),
    {
        if tenant.id < 1 || tenant.id == i64::MAX || tenant.name.as_str().unicode_len() == 0 {
            return Err(VaultError::Storage);
        }
        if self.find_tenant(tenant.id).is_some() || self.find_tenant_by_name(
            tenant.name.as_str(),
        ).is_some() {
            return Err(VaultError::Duplicate);
        }
        let tid = tenant.id;
        if tid >= self.next_tenant_id {
            self.next_tenant_id = tid + 1;
        }
        let rec = StoredTenant { tenant, salt: *salt };
        self.tenants.push(rec);
        proof {
            let s0 = *old(self);
            let n = s0.tenants@.len() as int;
            assert(self.tenants@.last() == self.tenants@[n]);
            assert forall|t: i64| s0.has_tenant(t) implies self.has_tenant(t) by {
                let w = choose|i: int|
                    0 <= i < s0.tenants@.len() && (#[trigger] s0.tenants@[i]).tenant.id == t;
                assert(self.tenants@[w].tenant.id == t);
            }
            assert(self.has_tenant(tid));
            assert(self.tenants_wf());
            assert(self.users_wf());
            assert(self.entries_wf());
        }
        Ok(())
    }

    /// Reinsert a persisted user row with its original id and password
    /// hash, when an adapter reloads a store. The id counter moves past the
    /// id.
    pub fn restore_user(
        &mut self,
        id: i64,
        tenant_id: Option<i64>,
        username: &str,
        password_hash: &str,
        is_superuser: bool,
    ) -> (r: Result<(), VaultError>)
        requires
            old(self).wf(),
        ensures
            final(self).wf(),
            r == Err::<(), VaultError>(VaultError::Storage) <==> (id < 1 || id == i64::MAX || (
            is_superuser <==> tenant_id is Some)),
            r == Err::<(), VaultError>(VaultError::NotFound) <==> (1 <= id < i64::MAX && (
            is_superuser <==> tenant_id is None) && (tenant_id matches Some(t) && !old(self).has_tenant(t))),
            r == Err::<(), VaultError>(VaultError::Duplicate) <==> (1 <= id < i64::MAX && (
            is_superuser <==> tenant_id is None) && (tenant_id matches Some(t) ==> old(self).has_tenant(t)) && (old(self).user_id_in_use(id) || old(self).has_user(username@))),
            r matches Err(e) ==> e == VaultError::Storage || e == VaultError::NotFound || e
                == VaultError::Duplicate,
            r is Err ==> *final(self) == *old(self),
            r is Ok ==> ({
                &&& final(self).users@ == old(self).users@.push(final(self).users@.last())
                &&& final(self).users@.last().id == id
                &&& final(self).users@.last().tenant_id == tenant_id
                &&& final(self).users@.last().username@ == username@
                &&& final(self).users@.last().password_hash@ == password_hash@
                &&& final(self).users@.last().is_superuser == is_superuser
                &&& final(self).has_user(username@)
                &&& final(self).tenants@ == old(self).tenants@
                &&& final(self).entries@ == old(self).entries@
                &&& final(self).next_tenant_id == old(self).next_tenant_id
                &&& id >= old(self).next_user_id ==> final(self).next_user_id == id + 1
                &&& id < old(self).next_user_id ==> final(self).next_user_id == old(self).next_user_id
            }),
    {
        let coherent = match tenant_id {
            Some(_) => !is_superuser,
            None => is_superuser,
        };
        if id < 1 || id == i64::MAX || !coherent {
            return Err(VaultError::Storage);
        }
        if let Some(t) = tenant_id {
            if self.find_tenant(t).is_none() {
                return Err(VaultError::NotFound);
            }
        }
        if self.user_id_taken(id) || self.find_user(username).is_some() {
            return Err(VaultError::Duplicate);
        }
        if id >= self.next_user_id {
            self.next_user_id = id + 1;
        }
        let rec = StoredUser {
            id,
            tenant_id,
            username: username.to_owned(),
            password_hash: password_hash.to_owned(),
            is_superuser,
        };
        self.users.push(rec);
        proof {
            let s0 = *old(self);
            let n = s0.users@.len() as int;
            assert(self.users@.last() == self.users@[n]);
            assert forall|t: i64| s0.has_tenant(t) implies self.has_tenant(t) by {
                let w = choose|i: int|
                    0 <= i < s0.tenants@.len() && (#[trigger] s0.tenants@[i]).tenant.id == t;
                assert(self.tenants@[w].tenant.id == t);
            }
            assert(self.has_user(username@));
            assert(self.tenants_wf());
            assert(self.users_wf());
            assert(self.entries_wf());
        }
        Ok(())
    }
}

} // verus!
