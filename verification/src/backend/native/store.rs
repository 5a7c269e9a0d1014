//! Where the native engine keeps each account's store. The store holds live
//! identity keys and session state, so every account gets a directory of its
//! own, `<data dir>/siggy/native/<account>/`, and multi-account setups never
//! share identity state. Creating, probing and deleting the directory is file
//! I/O and is left to the caller; this module is the path arithmetic.
use vstd::prelude::*;

use crate::text::{append_chars, chars_of, owned, push_char};

verus! {

/// A path that starts at the root.
pub open spec fn is_absolute(p: Seq<char>) -> bool {
    p.len() > 0 && p[0] == '/'
}

/// Joining a path onto a base on Unix, as `Path::join` does: an absolute path
/// replaces the base; otherwise it is appended, after a `/` unless the base is
/// empty or already ends with one.
pub open spec fn joined(base: Seq<char>, seg: Seq<char>) -> Seq<char> {
    if is_absolute(seg) {
        seg
    } else if base.len() == 0 || base.last() == '/' {
        base + seg
    } else {
        base + seq!['/'] + seg
    }
}

/// Join `seg` onto `base` with Unix path rules.
pub fn path_join(base: &str, seg: &str) -> (r: String)
    ensures
        r@ == joined(base@, seg@),
{
    let s = chars_of(seg);
    if s.len() > 0 && s[0] == '/' {
        return owned(seg);
    }
    let b = chars_of(base);
    let mut out = owned(base);
    if b.len() > 0 && b[b.len() - 1] != '/' {
        push_char(&mut out, '/');
    }
    append_chars(&mut out, &s);
    out
}

/// `dirs::data_dir`: the platform data directory (on Linux `$XDG_DATA_HOME`
/// when it is absolute, else `$HOME/.local/share`), as a string. It depends on
/// the environment, so nothing is stated of it; a directory whose name is not
/// valid Unicode is reported as absent.
#[verifier::external_body]
fn data_dir() -> (r: Option<String>) {
    match dirs::data_dir() {
        Some(p) => p.into_os_string().into_string().ok(),
        None => None,
    }
}

/// The native-engine root under a given data directory (`.` when there is
/// none): `<data dir>/siggy/native`.
pub open spec fn native_root_under(data_dir: Option<Seq<char>>) -> Seq<char> {
    let base = match data_dir {
        Some(d) => d,
        None => "."@,
    };
    joined(joined(base, "siggy"@), "native"@)
}

/// The native-engine root under a given data directory (`.` when there is
/// none).
pub fn native_root_in(data_dir: Option<&str>) -> (r: String)
    ensures
        r@ == native_root_under(
            match data_dir {
                Some(d) => Some(d@),
                None => None,
            },
        ),
{
    let base = match data_dir {
        Some(d) => d,
        None => ".",
    };
    path_join(path_join(base, "siggy").as_str(), "native")
}

/// Root of all native-engine account stores, `<data dir>/siggy/native`,
/// for whatever data directory the environment names.
pub fn native_root() -> (r: String)
    ensures
        exists|d: Option<Seq<char>>| r@ == native_root_under(d),
{
    let dir = data_dir();
    match &dir {
        Some(d) => native_root_in(Some(d.as_str())),
        None => native_root_in(None),
    }
}

/// The store directory of one account under a given root.
pub open spec fn store_dir_under(root: Seq<char>, account: Seq<char>) -> Seq<char> {
    joined(root, account)
}

/// The store file of one account under a given root.
pub open spec fn store_file_under(root: Seq<char>, account: Seq<char>) -> Seq<char> {
    joined(store_dir_under(root, account), "store.sqlite"@)
}

/// The store directory of one account under the given native root.
pub fn store_dir_in(root: &str, account: &str) -> (r: String)
    ensures
        r@ == store_dir_under(root@, account@),
{
    path_join(root, account)
}

/// The sqlite file of one account's store under the given native root.
pub fn store_file_in(root: &str, account: &str) -> (r: String)
    ensures
        r@ == store_file_under(root@, account@),
{
    let dir = store_dir_in(root, account);
    path_join(dir.as_str(), "store.sqlite")
}

/// The store directory for one account: pure path arithmetic, no file access.
pub fn store_dir(account: &str) -> (r: String)
    ensures
        exists|d: Option<Seq<char>>| r@ == store_dir_under(native_root_under(d), account@),
{
    let root = native_root();
    store_dir_in(root.as_str(), account)
}

/// The sqlite file of one account's store.
pub fn store_file(account: &str) -> (r: String)
    ensures
        exists|d: Option<Seq<char>>| r@ == store_file_under(native_root_under(d), account@),
{
    let root = native_root();
    store_file_in(root.as_str(), account)
}

/// Under one root, two different accounts (neither an absolute path) get
/// different store directories, each ending in the account's name, and each
/// account's store file lies inside its store directory.
pub proof fn law_store_paths_per_account(root: Seq<char>, a: Seq<char>, b: Seq<char>)
    requires
        a != b,
        !is_absolute(a),
        !is_absolute(b),
    ensures
        store_dir_under(root, a) != store_dir_under(root, b),
        store_dir_under(root, a).len() >= a.len(),
        store_dir_under(root, a).skip(store_dir_under(root, a).len() - a.len()) == a,
        store_file_under(root, a).len() >= store_dir_under(root, a).len(),
        store_file_under(root, a).take(store_dir_under(root, a).len() as int) == store_dir_under(
            root,
            a,
        ),
{
    reveal_strlit("store.sqlite");
    let pre = if root.len() == 0 || root.last() == '/' {
        root
    } else {
        root + seq!['/']
    };
    assert(store_dir_under(root, a) == pre + a);
    assert(store_dir_under(root, b) == pre + b);
    if pre + a == pre + b {
        assert(a =~= (pre + a).skip(pre.len() as int));
        assert(b =~= (pre + b).skip(pre.len() as int));
    }
    let da = store_dir_under(root, a);
    assert(da.skip(da.len() - a.len()) =~= a);
    assert(!is_absolute("store.sqlite"@));
    let fa = store_file_under(root, a);
    assert(fa.take(da.len() as int) =~= da);
}

} // verus!
