//! The rules behind the store: which addresses are blocked, how the password of the
//! panel is kept, and how a session is called.

use vstd::prelude::*;
use vstd::utf8::is_ascii_chars;

use crate::numeral::digit_char;
use crate::numeral::hexadecimal;
use crate::numeral::hexadecimal_text;
use crate::numeral::lemma_hexadecimal_digits;
use crate::text::after_prefix;
use crate::text::all_space;
use crate::text::ascii_lower;
use crate::text::chars_of;
use crate::text::ends_with;
use crate::text::has_prefix;
use crate::text::has_suffix;
use crate::text::is_space;
use crate::text::is_trimmed;
use crate::text::law_ascii_lowercase;
use crate::text::law_padding_is_trimmed;
use crate::text::law_suffix;
use crate::text::law_trimmed;
use crate::text::lemma_trimmed_end_append;
use crate::text::lemma_trimmed_end_splits;
use crate::text::lemma_trimmed_start_splits;
use crate::text::lowercase;
use crate::text::same_text;
use crate::text::strip_prefix;
use crate::text::text_of;
use crate::text::texts;
use crate::text::to_lowercase;
use crate::text::trim;
use crate::text::trimmed;
use crate::text::trimmed_end;
use crate::text::trimmed_start;

verus! {

// ---------------------------------------------------------------------------
// Addresses
// ---------------------------------------------------------------------------

/// `c` ends the host of an address.
pub open spec fn ends_host(c: char) -> bool {
    c == '/' || c == '?' || c == '#' || c == ':'
}

/// The beginning of `s`, up to the first character that ends a host.
pub open spec fn host_part(s: Seq<char>) -> Seq<char>
    decreases s.len(),
{
    if s.len() == 0 || ends_host(s[0]) {
        Seq::empty()
    } else {
        seq![s[0]] + host_part(s.drop_first())
    }
}

/// `url` without its scheme.
pub open spec fn without_scheme(url: Seq<char>) -> Seq<char> {
    match after_prefix(url, "https://"@) {
        Some(rest) => rest,
        None => match after_prefix(url, "http://"@) {
            Some(rest) => rest,
            None => url,
        },
    }
}

/// The host of an address, which is empty where it has none.
pub open spec fn url_host(url: Seq<char>) -> Seq<char> {
    trimmed(host_part(without_scheme(trimmed(url))))
}

/// The domain of an address: its host in small letters, where it has one.
pub open spec fn url_domain(url: Seq<char>) -> Option<Seq<char>> {
    if url_host(url).len() == 0 {
        None
    } else {
        Some(lowercase(url_host(url)))
    }
}

fn read_host_part(s: &str) -> (r: String)
    ensures
        r@ == host_part(s@),
{
    let chars = chars_of(s);
    let mut i: usize = 0;
    assert(chars@.take(0) + host_part(chars@.skip(0)) =~= host_part(s@)) by {
        assert(chars@.skip(0) =~= s@);
    }
    while i < chars.len() && !(chars[i] == '/' || chars[i] == '?' || chars[i] == '#' || chars[i]
        == ':')
        invariant
            i <= chars@.len(),
            chars@ == s@,
            chars@.take(i as int) + host_part(chars@.skip(i as int)) == host_part(s@),
        decreases chars@.len() - i,
    {
        let ghost rest = chars@.skip(i as int);
        assert(rest[0] == chars@[i as int]);
        assert(rest.drop_first() =~= chars@.skip(i + 1));
        assert(chars@.take(i as int) + (seq![rest[0]] + host_part(rest.drop_first()))
            =~= chars@.take(i + 1) + host_part(chars@.skip(i + 1)));
        i += 1;
    }
    assert(host_part(chars@.skip(i as int)) =~= Seq::<char>::empty()) by {
        if i < chars@.len() {
            assert(chars@.skip(i as int)[0] == chars@[i as int]);
        }
    }
    assert(chars@.take(i as int) =~= host_part(s@));
    assert(chars@.subrange(0, i as int) =~= chars@.take(i as int));
    text_of(&chars, 0, i)
}

/// Finds the domain of an address.
pub fn extract_domain(url: &str) -> (r: Option<String>)
    ensures
        match r {
            Some(host) => url_domain(url@) == Some(host@) && host@.len() > 0,
            None => url_domain(url@) is None,
        },
{
    let trimmed_url = trim(url);
    let rest = match strip_prefix(trimmed_url, "https://") {
        Some(rest) => rest,
        None => match strip_prefix(trimmed_url, "http://") {
            Some(rest) => rest,
            None => trimmed_url,
        },
    };
    let part = read_host_part(rest);
    let host = to_lowercase(trim(part.as_str()));
    if host.as_str().unicode_len() == 0 {
        None
    } else {
        Some(host)
    }
}

// ---------------------------------------------------------------------------
// The blacklist
// ---------------------------------------------------------------------------

/// The entry under which a domain is listed.
pub open spec fn domain_entry(domain: Seq<char>) -> Seq<char> {
    lowercase(trimmed(domain))
}

/// A domain without any characters cannot be listed.
#[derive(Debug, Clone, Copy, PartialEq, Eq)]
pub struct EmptyDomain;

impl EmptyDomain {
    /// Says so in words.
    pub fn message(&self) -> (r: String)
        ensures
            r@ == "Domain cannot be empty"@,
    {
        String::from_str("Domain cannot be empty")
    }
}

/// Finds the entry under which a domain is to be listed. Only a blank one is refused.
pub fn add_blacklist(domain: &str) -> (r: Result<String, EmptyDomain>)
    ensures
        match r {
            Ok(entry) => trimmed(domain@).len() > 0 && entry@ == domain_entry(domain@) && entry@.len()
                > 0,
            Err(_) => trimmed(domain@).len() == 0,
        },
{
    let entry = to_lowercase(trim(domain));
    if entry.as_str().unicode_len() == 0 {
        Err(EmptyDomain)
    } else {
        Ok(entry)
    }
}

/// Finds the entry that is to be taken off the list for a domain.
pub fn remove_blacklist(domain: &str) -> (r: String)
    ensures
        r@ == domain_entry(domain@),
{
    to_lowercase(trim(domain))
}

/// `host` is the domain of `entry`, or one below it.
pub open spec fn covers(entry: Seq<char>, host: Seq<char>) -> bool {
    host == lowercase(entry) || has_suffix(host, "."@ + lowercase(entry))
}

/// The first of the `entries` that covers `host`.
pub open spec fn covering_entry(entries: Seq<Seq<char>>, host: Seq<char>) -> Option<Seq<char>>
    decreases entries.len(),
{
    if entries.len() == 0 {
        None
    } else if covers(entries[0], host) {
        Some(entries[0])
    } else {
        covering_entry(entries.drop_first(), host)
    }
}

/// The entry by which an address is blocked, where it is.
pub open spec fn blocking_entry(url: Seq<char>, entries: Seq<Seq<char>>) -> Option<Seq<char>> {
    match url_domain(url) {
        Some(host) => covering_entry(entries, host),
        None => None,
    }
}

fn is_covered(entry: &str, host: &str) -> (r: bool)
    ensures
        r == covers(entry@, host@),
{
    let domain = to_lowercase(entry);
    let mut suffix = String::from_str(".");
    suffix.append(domain.as_str());
    same_text(host, domain.as_str()) || ends_with(host, suffix.as_str())
}

/// Finds the first entry of the list that blocks an address.
pub fn check_url_blacklisted(url: &str, entries: &Vec<String>) -> (r: Option<String>)
    ensures
        match r {
            Some(entry) => blocking_entry(url@, texts(entries@)) == Some(entry@),
            None => blocking_entry(url@, texts(entries@)) is None,
        },
{
    let host = match extract_domain(url) {
        Some(host) => host,
        None => return None,
    };
    let ghost all = texts(entries@);
    let mut i: usize = 0;
    assert(all.skip(0) =~= all);
    while i < entries.len()
        invariant
            i <= entries@.len(),
            all == texts(entries@),
            url_domain(url@) == Some(host@),
            covering_entry(all, host@) == covering_entry(all.skip(i as int), host@),
        decreases entries@.len() - i,
    {
        assert(all.skip(i as int)[0] == entries@[i as int]@);
        if is_covered(entries[i].as_str(), host.as_str()) {
            return Some(entries[i].clone());
        }
        assert(all.skip(i as int).drop_first() =~= all.skip(i + 1));
        i += 1;
    }
    None
}

// ---------------------------------------------------------------------------
// The password
// ---------------------------------------------------------------------------

/// The work factor of the hashes.
pub const PASSWORD_COST: u32 = 12;

/// The password before it is changed.
pub open spec fn default_password() -> Seq<char> {
    "admin"@
}

/// An error of `bcrypt`.
#[verifier::external_type_specification]
#[verifier::external_body]
pub struct ExBcryptError(bcrypt::BcryptError);

/// What `bcrypt::verify` says of a password and a hash: whether they match, and
/// nothing where the hash is not one.
pub uninterp spec fn bcrypt_match(password: Seq<char>, hash: Seq<char>) -> Option<bool>;

/// `bcrypt::verify`. Whether a password matches a hash depends on the two alone, and
/// a text that is no hash is an error.
#[verifier::external_body]
fn bcrypt_verify(password: &str, hash: &str) -> (r: Result<bool, bcrypt::BcryptError>)
    ensures
        r matches Ok(matching) ==> bcrypt_match(password@, hash@) == Some(matching),
        r is Err ==> bcrypt_match(password@, hash@) is None,
{
    bcrypt::verify(password, hash)
}

/// `hash` is written as a hash of the given work factor: its version, the work factor
/// in two digits, and 53 characters of salt and digest.
pub open spec fn is_hash_text(hash: Seq<char>, cost: nat) -> bool {
    &&& hash.len() == 60
    &&& has_prefix(hash, "$2b$"@ + seq![digit_char(cost / 10), digit_char(cost % 10)] + "$"@)
}

/// `bcrypt::hash`. The hash is salted at random, names its work factor, and matches
/// the password that it was made from. A work factor out of range is an error;
/// whether there is another rests with the source of random numbers.
#[verifier::external_body]
fn bcrypt_hash(password: &str, cost: u32) -> (r: Result<String, bcrypt::BcryptError>)
    ensures
        r matches Ok(hash) ==> bcrypt_match(password@, hash@) == Some(true),
        r matches Ok(hash) ==> is_hash_text(hash@, cost as nat),
        !(4 <= cost <= 31) ==> r is Err,
{
    bcrypt::hash(password, cost)
}

/// A password could not be hashed.
#[derive(Debug)]
pub struct HashError {
    pub cause: bcrypt::BcryptError,
}

/// The password is right: there is a hash, and it matches.
pub fn is_accepted(outcome: Option<Result<bool, HashError>>) -> (r: bool)
    ensures
        r == (outcome matches Some(Ok(matching)) && matching),
{
    match outcome {
        Some(Ok(matching)) => matching,
        _ => false,
    }
}

/// Tells whether a password is the one whose hash is stored.
pub fn verify_admin_password(stored: Option<&str>, password: &str) -> (r: bool)
    ensures
        r == match stored {
            Some(hash) => bcrypt_match(password@, hash@) == Some(true),
            None => false,
        },
{
    match stored {
        Some(hash) => is_accepted(
            Some(
                match bcrypt_verify(password, hash) {
                    Ok(matching) => Ok(matching),
                    Err(cause) => Err(HashError { cause }),
                },
            ),
        ),
        None => is_accepted(None),
    }
}

/// Goes on once a password was hashed, or could not be: the hash is stored as it is,
/// and the error is handed on.
pub fn hash_to_store(outcome: Result<String, bcrypt::BcryptError>) -> (r: Result<
    String,
    HashError,
>)
    ensures
        r == match outcome {
            Ok(hash) => Ok::<String, HashError>(hash),
            Err(cause) => Err::<String, HashError>(HashError { cause }),
        },
{
    match outcome {
        Ok(hash) => Ok(hash),
        Err(cause) => Err(HashError { cause }),
    }
}

/// Makes the hash that is to be stored for a new password. It matches the password
/// and has the work factor `PASSWORD_COST`. Whether one can be made rests with the
/// source of random numbers.
pub fn set_admin_password(new_password: &str) -> (r: Result<String, HashError>)
    ensures
        r matches Ok(hash) ==> bcrypt_match(new_password@, hash@) == Some(true) && is_hash_text(
            hash@,
            PASSWORD_COST as nat,
        ),
{
    hash_to_store(bcrypt_hash(new_password, PASSWORD_COST))
}

/// Makes the hash that is to be stored when the server starts: none where there is
/// one already, and else that of the default password.
pub fn seed_default_password(stored: Option<&str>) -> (r: Result<Option<String>, HashError>)
    ensures
        stored is Some ==> r == Ok::<Option<String>, HashError>(None),
        stored is None ==> match r {
            Ok(Some(hash)) => bcrypt_match(default_password(), hash@) == Some(true) && is_hash_text(
                hash@,
                PASSWORD_COST as nat,
            ),
            Ok(None) => false,
            Err(_) => true,
        },
{
    match stored {
        Some(_) => Ok(None),
        None => match set_admin_password("admin") {
            Ok(hash) => Ok(Some(hash)),
            Err(e) => Err(e),
        },
    }
}

// ---------------------------------------------------------------------------
// Sessions
// ---------------------------------------------------------------------------

/// The name of the session that is opened at the given time in process `pid`.
pub open spec fn session_name(secs: u64, nanos: u32, pid: u32) -> Seq<char> {
    hexadecimal(secs as nat) + hexadecimal(nanos as nat) + hexadecimal(pid as nat)
}

/// Names the session that is opened at the given time in process `pid`.
pub fn create_session(secs: u64, nanos: u32, pid: u32) -> (r: String)
    ensures
        r@ == session_name(secs, nanos, pid),
{
    let mut token = hexadecimal_text(secs);
    token.append(hexadecimal_text(nanos as u64).as_str());
    token.append(hexadecimal_text(pid as u64).as_str());
    token
}

// ---------------------------------------------------------------------------
// Laws
// ---------------------------------------------------------------------------

/// `s` can stand for the host of an address as it is.
pub open spec fn is_host(s: Seq<char>) -> bool {
    &&& s.len() > 0
    &&& is_trimmed(s)
    &&& forall|i: int| 0 <= i < s.len() ==> !ends_host(#[trigger] s[i])
}

proof fn lemma_host_part(host: Seq<char>, rest: Seq<char>)
    requires
        forall|i: int| 0 <= i < host.len() ==> !ends_host(#[trigger] host[i]),
        rest.len() > 0,
        ends_host(rest[0]),
    ensures
        host_part(host + rest) == host,
    decreases host.len(),
{
    let s = host + rest;
    if host.len() == 0 {
        assert(s =~= rest);
    } else {
        assert(s[0] == host[0]);
        assert(s.drop_first() =~= host.drop_first() + rest);
        lemma_host_part(host.drop_first(), rest);
        assert(seq![host[0]] + host.drop_first() =~= host);
    }
}

proof fn lemma_host_part_clean(s: Seq<char>)
    ensures
        forall|i: int| 0 <= i < host_part(s).len() ==> !ends_host(#[trigger] host_part(s)[i]),
    decreases s.len(),
{
    if s.len() > 0 && !ends_host(s[0]) {
        let rest = host_part(s.drop_first());
        lemma_host_part_clean(s.drop_first());
        assert forall|i: int| 0 <= i < host_part(s).len() implies !ends_host(
            #[trigger] host_part(s)[i],
        ) by {
            if i > 0 {
                assert(host_part(s)[i] == rest[i - 1]);
            }
        }
    }
}

proof fn lemma_clean_host_part(s: Seq<char>)
    requires
        forall|i: int| 0 <= i < s.len() ==> !ends_host(#[trigger] s[i]),
    ensures
        host_part(s) == s,
    decreases s.len(),
{
    if s.len() > 0 {
        lemma_clean_host_part(s.drop_first());
        assert(seq![s[0]] + s.drop_first() =~= s);
    } else {
        assert(host_part(s) =~= s);
    }
}

proof fn lemma_trimmed_clean(s: Seq<char>)
    requires
        forall|i: int| 0 <= i < s.len() ==> !ends_host(#[trigger] s[i]),
    ensures
        forall|i: int| 0 <= i < trimmed(s).len() ==> !ends_host(#[trigger] trimmed(s)[i]),
{
    let before = lemma_trimmed_start_splits(s);
    let after = lemma_trimmed_end_splits(trimmed_start(s));
    assert forall|i: int| 0 <= i < trimmed(s).len() implies !ends_host(#[trigger] trimmed(s)[i]) by {
        assert(trimmed(s)[i] == trimmed_start(s)[i]);
        assert(trimmed(s)[i] == s[before.len() + i]);
    }
}

proof fn lemma_host_after_space(space: Seq<char>, s: Seq<char>)
    requires
        all_space(space),
    ensures
        host_part(space + s) == space + host_part(s),
    decreases space.len(),
{
    let whole = space + s;
    if space.len() == 0 {
        assert(whole =~= s);
        assert(space + host_part(s) =~= host_part(s));
    } else {
        assert(whole[0] == space[0]);
        assert(whole.drop_first() =~= space.drop_first() + s);
        lemma_host_after_space(space.drop_first(), s);
        assert(seq![space[0]] + (space.drop_first() + host_part(s)) =~= space + host_part(s));
    }
}

proof fn lemma_host_before_space(s: Seq<char>, space: Seq<char>)
    requires
        all_space(space),
    ensures
        host_part(s + space) == host_part(s) || host_part(s + space) == host_part(s) + space,
    decreases s.len(),
{
    let whole = s + space;
    if s.len() == 0 {
        assert(whole =~= space + Seq::empty());
        lemma_host_after_space(space, Seq::empty());
        assert(host_part(Seq::<char>::empty()) =~= Seq::empty());
        assert(host_part(whole) =~= host_part(s) + space);
    } else {
        assert(whole[0] == s[0]);
        if !ends_host(s[0]) {
            assert(whole.drop_first() =~= s.drop_first() + space);
            lemma_host_before_space(s.drop_first(), space);
            let rest = host_part(s.drop_first());
            assert(seq![s[0]] + (rest + space) =~= seq![s[0]] + rest + space);
        }
    }
}

/// White space around a text does not change the host at its beginning.
proof fn lemma_trimmed_host(s: Seq<char>)
    ensures
        trimmed(host_part(trimmed_end(s))) == trimmed(host_part(s)),
        trimmed(host_part(trimmed_start(s))) == trimmed(host_part(s)),
{
    let none = Seq::<char>::empty();
    let after = lemma_trimmed_end_splits(s);
    let x = host_part(trimmed_end(s));
    lemma_host_before_space(trimmed_end(s), after);
    law_padding_is_trimmed(none, x, after);
    assert(none + x + after =~= x + after);
    let before = lemma_trimmed_start_splits(s);
    let y = host_part(trimmed_start(s));
    lemma_host_after_space(before, trimmed_start(s));
    law_padding_is_trimmed(before, y, none);
    assert(before + y + none =~= before + y);
}

/// Both schemes are alike: they leave the host at the beginning of what follows them,
/// without the white space around it. A text that begins with neither is taken as if
/// it followed one. There is no domain if and only if that host is blank.
pub proof fn law_schemes_alike(rest: Seq<char>)
    ensures
        url_host("https://"@ + rest) == trimmed(host_part(rest)),
        url_host("http://"@ + rest) == trimmed(host_part(rest)),
        url_domain("https://"@ + rest) == url_domain("http://"@ + rest),
        url_domain("https://"@ + rest) is None <==> trimmed(host_part(rest)).len() == 0,
        !has_prefix(trimmed_start(rest), "https://"@) && !has_prefix(
            trimmed_start(rest),
            "http://"@,
        ) ==> url_domain(rest) == url_domain("https://"@ + rest),
{
    reveal_strlit("https://");
    reveal_strlit("http://");
    let tail = trimmed_end(rest);
    lemma_trimmed_end_append("https://"@, rest);
    lemma_trimmed_end_append("http://"@, rest);
    assert(("https://"@ + rest)[0] == 'h');
    assert(("http://"@ + rest)[0] == 'h');
    let x = "https://"@ + tail;
    let y = "http://"@ + tail;
    assert(x.take(8) =~= "https://"@);
    assert(x.skip(8) =~= tail);
    assert(y.take(7) =~= "http://"@);
    assert(y.skip(7) =~= tail);
    assert(y[4] == ':');
    assert(after_prefix(y, "https://"@) is None) by {
        if has_prefix(y, "https://"@) {
            assert(y.take(8)[4] == 's');
        }
    }
    lemma_trimmed_host(rest);
    let core = trimmed_start(rest);
    let after = lemma_trimmed_end_splits(core);
    lemma_trimmed_host(core);
    let t = trimmed(rest);
    if has_prefix(t, "https://"@) {
        assert(core.take(8) =~= t.take(8));
    }
    if has_prefix(t, "http://"@) {
        assert(core.take(7) =~= t.take(7));
    }
}

/// A host holds nothing that ends one and no white space around it, and is its own
/// host.
pub proof fn law_host_is_clean(url: Seq<char>)
    ensures
        is_trimmed(url_host(url)),
        forall|i: int| 0 <= i < url_host(url).len() ==> !ends_host(#[trigger] url_host(url)[i]),
        url_host(url_host(url)) == url_host(url),
{
    let part = host_part(without_scheme(trimmed(url)));
    lemma_host_part_clean(without_scheme(trimmed(url)));
    lemma_trimmed_clean(part);
    law_trimmed(part);
    lemma_own_host(url_host(url));
}

proof fn lemma_own_host(host: Seq<char>)
    requires
        is_trimmed(host),
        forall|i: int| 0 <= i < host.len() ==> !ends_host(#[trigger] host[i]),
    ensures
        url_host(host) == host,
{
    reveal_strlit("https://");
    reveal_strlit("http://");
    lemma_trim_is_taken(host);
    if has_prefix(host, "https://"@) {
        assert(host.take(8)[5] == ':');
        assert(ends_host(host[5]));
    }
    if has_prefix(host, "http://"@) {
        assert(host.take(7)[4] == ':');
        assert(ends_host(host[4]));
    }
    lemma_clean_host_part(host);
}

/// The domain of an address whose host is ASCII is in small letters, holds nothing
/// that ends a host and no white space around it, and is its own domain.
pub proof fn law_domain_is_its_own(url: Seq<char>, domain: Seq<char>)
    requires
        url_domain(url) == Some(domain),
        is_ascii_chars(url_host(url)),
    ensures
        domain.len() > 0,
        is_trimmed(domain),
        lowercase(domain) == domain,
        forall|i: int| 0 <= i < domain.len() ==> !ends_host(#[trigger] domain[i]),
        url_domain(domain) == Some(domain),
{
    let host = url_host(url);
    law_host_is_clean(url);
    law_ascii_lowercase(host);
    assert forall|i: int| 0 <= i < domain.len() implies !ends_host(#[trigger] domain[i]) by {
        assert(domain[i] == ascii_lower(host[i]));
        assert(!ends_host(host[i]));
    }
    lemma_own_host(domain);
}

/// The domain of an address is its host in small letters, whatever follows it.
pub proof fn law_url_domain(host: Seq<char>, path: Seq<char>)
    requires
        is_host(host),
    ensures
        url_domain("https://"@ + host + "/"@ + path) == Some(lowercase(host)),
        url_domain("http://"@ + host + "/"@ + path) == Some(lowercase(host)),
{
    reveal_strlit("https://");
    reveal_strlit("http://");
    reveal_strlit("/");
    let tail = trimmed_end(path);
    let rest = "/"@ + tail;
    assert(rest[0] == '/');
    lemma_host_part(host, rest);
    lemma_trimmed_end_append("https://"@ + host + "/"@, path);
    lemma_trimmed_end_append("http://"@ + host + "/"@, path);
    let secure = "https://"@ + host + "/"@ + path;
    let plain = "http://"@ + host + "/"@ + path;
    assert(secure[0] == 'h' && plain[0] == 'h');
    let x = trimmed(secure);
    let y = trimmed(plain);
    assert(x.take(8) =~= "https://"@);
    assert(x.skip(8) =~= host + rest);
    assert(y.take(7) =~= "http://"@);
    assert(y.skip(7) =~= host + rest);
    assert(y[4] == ':');
    assert(after_prefix(y, "https://"@) is None) by {
        if has_prefix(y, "https://"@) {
            assert(y.take(8)[4] == 's');
        }
    }
}

/// An address is blocked if and only if an entry of the list covers its domain, and
/// it is blocked by such an entry.
pub proof fn law_blocked_by_cover(url: Seq<char>, entries: Seq<Seq<char>>)
    ensures
        match blocking_entry(url, entries) {
            Some(entry) => entries.contains(entry) && (url_domain(url) matches Some(host) && covers(
                entry,
                host,
            )),
            None => url_domain(url) matches Some(host) ==> forall|i: int|
                0 <= i < entries.len() ==> !covers(#[trigger] entries[i], host),
        },
{
    if let Some(host) = url_domain(url) {
        lemma_covering(entries, host);
    }
}

proof fn lemma_covering(entries: Seq<Seq<char>>, host: Seq<char>)
    ensures
        match covering_entry(entries, host) {
            Some(entry) => entries.contains(entry) && covers(entry, host),
            None => forall|i: int| 0 <= i < entries.len() ==> !covers(#[trigger] entries[i], host),
        },
    decreases entries.len(),
{
    if entries.len() > 0 {
        let rest = entries.drop_first();
        if covers(entries[0], host) {
            assert(entries.contains(entries[0]));
        } else {
            lemma_covering(rest, host);
            match covering_entry(rest, host) {
                Some(entry) => {
                    let k = choose|k: int| 0 <= k < rest.len() && rest[k] == entry;
                    assert(entries[k + 1] == entry);
                },
                None => {
                    assert forall|i: int| 0 <= i < entries.len() implies !covers(
                        #[trigger] entries[i],
                        host,
                    ) by {
                        if i > 0 {
                            assert(entries[i] == rest[i - 1]);
                        }
                    }
                },
            }
        }
    }
}

/// `host` is `domain`, or one below it.
pub open spec fn is_below(host: Seq<char>, domain: Seq<char>) -> bool {
    host == domain || has_suffix(host, "."@ + domain)
}

/// The entry at `i` is the first one whose domain `host` is, or is below.
pub open spec fn is_first_cover(entries: Seq<Seq<char>>, host: Seq<char>, i: int) -> bool {
    &&& 0 <= i < entries.len()
    &&& is_below(host, entries[i])
    &&& forall|j: int| 0 <= j < i ==> !is_below(host, #[trigger] entries[j])
}

proof fn lemma_first_cover(entries: Seq<Seq<char>>, host: Seq<char>, entry: Seq<char>)
    requires
        forall|i: int| 0 <= i < entries.len() ==> lowercase(#[trigger] entries[i]) == entries[i],
    ensures
        covering_entry(entries, host) == Some(entry) <==> exists|i: int| #[trigger]
            is_first_cover(entries, host, i) && entries[i] == entry,
    decreases entries.len(),
{
    if entries.len() > 0 {
        let rest = entries.drop_first();
        assert(lowercase(entries[0]) == entries[0]);
        assert forall|i: int| 0 <= i < rest.len() implies lowercase(#[trigger] rest[i]) == rest[i] by {
            assert(rest[i] == entries[i + 1]);
        }
        lemma_first_cover(rest, host, entry);
        if is_below(host, entries[0]) {
            assert(is_first_cover(entries, host, 0));
            assert forall|i: int| #[trigger] is_first_cover(entries, host, i) implies i == 0 by {
                if i > 0 {
                    assert(!is_below(host, entries[0]));
                }
            }
        } else {
            if covering_entry(rest, host) == Some(entry) {
                let i = choose|i: int| #[trigger]
                    is_first_cover(rest, host, i) && rest[i] == entry;
                assert forall|j: int| 0 <= j < i + 1 implies !is_below(host, #[trigger] entries[j]) by {
                    if j > 0 {
                        assert(entries[j] == rest[j - 1]);
                    }
                }
                assert(is_first_cover(entries, host, i + 1));
            }
            if exists|i: int| #[trigger] is_first_cover(entries, host, i) && entries[i] == entry {
                let i = choose|i: int| #[trigger]
                    is_first_cover(entries, host, i) && entries[i] == entry;
                assert forall|j: int| 0 <= j < i - 1 implies !is_below(host, #[trigger] rest[j]) by {
                    assert(rest[j] == entries[j + 1]);
                }
                assert(is_first_cover(rest, host, i - 1));
            }
        }
    }
}

/// Where the entries of the list are in small letters, an address is blocked by the
/// first of them that is its domain or one above it, and by no other.
pub proof fn law_first_cover_blocks(url: Seq<char>, entries: Seq<Seq<char>>, entry: Seq<char>)
    requires
        forall|i: int| 0 <= i < entries.len() ==> lowercase(#[trigger] entries[i]) == entries[i],
    ensures
        blocking_entry(url, entries) == Some(entry) <==> (url_domain(url) matches Some(host)
            && exists|i: int| #[trigger]
            is_first_cover(entries, host, i) && entries[i] == entry),
{
    if let Some(host) = url_domain(url) {
        lemma_first_cover(entries, host, entry);
    }
}

/// Listing a domain a second time, with other white space around it, changes nothing.
pub proof fn law_listed_once(
    list: Set<Seq<char>>,
    before: Seq<char>,
    domain: Seq<char>,
    after: Seq<char>,
)
    requires
        all_space(before),
        all_space(after),
    ensures
        domain_entry(before + domain + after) == domain_entry(domain),
        list.insert(domain_entry(domain)).insert(domain_entry(before + domain + after))
            == list.insert(domain_entry(domain)),
{
    law_padding_is_trimmed(before, domain, after);
}

/// A domain that is listed is blocked, in whatever letters and with whatever white
/// space around it it was given, and so is every domain below it.
pub proof fn law_listed_domain_is_blocked(
    domain: Seq<char>,
    label: Seq<char>,
    path: Seq<char>,
    entries: Seq<Seq<char>>,
)
    requires
        is_ascii_chars(domain),
        is_ascii_chars(label),
        is_host(trimmed(domain)),
        is_host(label),
        entries.contains(domain_entry(domain)),
    ensures
        blocking_entry("https://"@ + trimmed(domain) + "/"@ + path, entries) is Some,
        blocking_entry("https://"@ + (label + "."@ + trimmed(domain)) + "/"@ + path, entries)
            is Some,
{
    reveal_strlit(".");
    let host = trimmed(domain);
    let below = label + "."@ + host;
    let entry = domain_entry(domain);
    lemma_trimmed_ascii(domain);
    law_ascii_lowercase(host);
    law_ascii_lowercase(label);
    assert forall|i: int| 0 <= i < below.len() implies '\0' <= #[trigger] below[i] <= '\u{7f}' by {
        if i < label.len() {
            assert(below[i] == label[i]);
        } else if i > label.len() {
            assert(below[i] == host[i - label.len() - 1]);
        }
    }
    assert forall|i: int| 0 <= i < below.len() implies !ends_host(#[trigger] below[i]) by {
        if i < label.len() {
            assert(below[i] == label[i]);
        } else if i > label.len() {
            assert(below[i] == host[i - label.len() - 1]);
        }
    }
    assert(below[0] == label[0] && below.last() == host.last());
    law_url_domain(host, path);
    law_ascii_lowercase(below);
    law_url_domain(below, path);
    let lowered = lowercase(below);
    let suffix = "."@ + entry;
    assert(lowered.skip(lowered.len() - suffix.len()) =~= suffix);
    assert(covers(entry, lowercase(host)));
    assert(covers(entry, lowered));
    let k = choose|k: int| 0 <= k < entries.len() && entries[k] == entry;
    law_blocked_by_cover("https://"@ + host + "/"@ + path, entries);
    law_blocked_by_cover("https://"@ + below + "/"@ + path, entries);
    assert(covers(entries[k], lowercase(host)));
    assert(covers(entries[k], lowered));
}

proof fn lemma_trimmed_ascii(s: Seq<char>)
    requires
        is_ascii_chars(s),
    ensures
        is_ascii_chars(trimmed(s)),
{
    lemma_trimmed_start_ascii(s);
    lemma_trimmed_end_ascii(trimmed_start(s));
}

proof fn lemma_trimmed_start_ascii(s: Seq<char>)
    requires
        is_ascii_chars(s),
    ensures
        is_ascii_chars(trimmed_start(s)),
    decreases s.len(),
{
    if s.len() > 0 && is_space(s[0]) {
        lemma_trimmed_start_ascii(s.drop_first());
    }
}

proof fn lemma_trimmed_end_ascii(s: Seq<char>)
    requires
        is_ascii_chars(s),
    ensures
        is_ascii_chars(trimmed_end(s)),
    decreases s.len(),
{
    if s.len() > 0 && is_space(s.last()) {
        lemma_trimmed_end_ascii(s.drop_last());
    }
}

/// The entry of a listed domain is also the one by which it is taken off the list,
/// in whatever letters and with whatever white space around it it is given.
pub proof fn law_entry_is_stable(domain: Seq<char>)
    requires
        is_ascii_chars(domain),
    ensures
        domain_entry(domain_entry(domain)) == domain_entry(domain),
        domain_entry(lowercase(domain)) == domain_entry(domain),
        lowercase(domain_entry(domain)) == domain_entry(domain),
{
    lemma_trimmed_ascii(domain);
    law_trimmed(domain);
    law_ascii_lowercase(trimmed(domain));
    law_ascii_lowercase(domain);
    lemma_trim_is_taken(domain_entry(domain));
    lemma_lower_then_trim(domain);
}

proof fn lemma_trim_is_taken(s: Seq<char>)
    requires
        is_trimmed(s),
    ensures
        trimmed(s) == s,
{
}

proof fn lemma_lower_then_trim(s: Seq<char>)
    requires
        is_ascii_chars(s),
    ensures
        trimmed(lowercase(s)) == lowercase(trimmed(s)),
{
    lemma_lower_then_trim_start(s);
    lemma_trimmed_start_ascii(s);
    lemma_lower_then_trim_end(trimmed_start(s));
}

proof fn lemma_lower_then_trim_start(s: Seq<char>)
    requires
        is_ascii_chars(s),
    ensures
        trimmed_start(lowercase(s)) == lowercase(trimmed_start(s)),
    decreases s.len(),
{
    law_ascii_lowercase(s);
    if s.len() > 0 {
        assert(is_space(lowercase(s)[0]) == is_space(s[0]));
        if is_space(s[0]) {
            lemma_lower_then_trim_start(s.drop_first());
            assert(lowercase(s).drop_first() =~= lowercase(s.drop_first()));
        }
    }
}

proof fn lemma_lower_then_trim_end(s: Seq<char>)
    requires
        is_ascii_chars(s),
    ensures
        trimmed_end(lowercase(s)) == lowercase(trimmed_end(s)),
    decreases s.len(),
{
    law_ascii_lowercase(s);
    if s.len() > 0 {
        assert(is_space(lowercase(s)[s.len() - 1]) == is_space(s[s.len() - 1]));
        if is_space(s.last()) {
            lemma_lower_then_trim_end(s.drop_last());
            assert(lowercase(s).drop_last() =~= lowercase(s.drop_last()));
        }
    }
}

/// The name of a session can stand in a cookie: it holds neither a semicolon nor
/// white space.
pub proof fn law_session_name(secs: u64, nanos: u32, pid: u32, i: int)
    requires
        0 <= i < session_name(secs, nanos, pid).len(),
    ensures
        session_name(secs, nanos, pid)[i] != ';',
        !is_space(session_name(secs, nanos, pid)[i]),
{
    lemma_hexadecimal_digits(secs as nat);
    lemma_hexadecimal_digits(nanos as nat);
    lemma_hexadecimal_digits(pid as nat);
    let a = hexadecimal(secs as nat);
    let b = hexadecimal(nanos as nat);
    let c = hexadecimal(pid as nat);
    let s = session_name(secs, nanos, pid);
    if i < a.len() {
        assert(s[i] == a[i]);
    } else if i < a.len() + b.len() {
        assert(s[i] == b[i - a.len()]);
    } else {
        assert(s[i] == c[i - a.len() - b.len()]);
    }
}

/// The domain of an address is what stands between its scheme, if it has one, and the
/// first slash, question mark, number sign or colon, in small letters.
pub proof fn law_domain_ends_at_separator(host: Seq<char>, c: char, path: Seq<char>)
    requires
        host.len() > 0,
        !is_space(host[0]),
        !is_space(host.last()),
        forall|i: int|
            0 <= i < host.len() ==> #[trigger] host[i] != '/' && host[i] != '?' && host[i] != '#'
                && host[i] != ':',
        c == '/' || c == '?' || c == '#' || c == ':',
    ensures
        url_domain("https://"@ + (host + (seq![c] + path))) == Some(lowercase(host)),
        url_domain("http://"@ + (host + (seq![c] + path))) == Some(lowercase(host)),
        url_domain("https://"@ + host) == Some(lowercase(host)),
        url_domain("http://"@ + host) == Some(lowercase(host)),
        url_domain(host) == Some(lowercase(host)),
{
    let rest = seq![c] + path;
    lemma_host_part(host, rest);
    law_schemes_alike(host + rest);
    lemma_clean_host_part(host);
    law_schemes_alike(host);
    lemma_trim_is_taken(host);
    lemma_own_host(host);
}

/// An entry blocks its own domain and those below it, and no domain that merely ends
/// in the same letters. The first such entry is the one that is named.
pub proof fn law_entry_blocks(
    url: Seq<char>,
    host: Seq<char>,
    entry: Seq<char>,
    others: Seq<Seq<char>>,
    label: Seq<char>,
)
    requires
        url_domain(url) == Some(host),
        lowercase(entry) == entry,
    ensures
        host == entry ==> blocking_entry(url, seq![entry] + others) == Some(entry),
        host == label + "."@ + entry ==> blocking_entry(url, seq![entry] + others) == Some(entry),
        host != entry && !has_suffix(host, "."@ + entry) ==> blocking_entry(
            url,
            seq![entry] + others,
        ) == blocking_entry(url, others),
        blocking_entry(url, Seq::empty()) is None,
{
    let list = seq![entry] + others;
    assert(list.drop_first() =~= others);
    if host == label + "."@ + entry {
        assert(host =~= label + ("."@ + entry));
        law_suffix(host, label, "."@ + entry);
    }
}

/// A domain is listed in small letters and without the white space around it.
pub proof fn law_entry_of_domain(before: Seq<char>, domain: Seq<char>, after: Seq<char>)
    requires
        all_space(before),
        all_space(after),
        is_trimmed(domain),
    ensures
        domain_entry(before + domain + after) == lowercase(domain),
{
    law_padding_is_trimmed(before, domain, after);
    lemma_trim_is_taken(domain);
}

/// A stored hash is 60 characters long and names its version and the work factor
/// twelve; the password before it is changed is `admin`.
pub proof fn law_stored_hash(hash: Seq<char>)
    requires
        is_hash_text(hash, PASSWORD_COST as nat),
    ensures
        hash.len() == 60,
        has_prefix(hash, "$2b$12$"@),
        default_password() == "admin"@,
{
    reveal_strlit("$2b$");
    reveal_strlit("$");
    reveal_strlit("$2b$12$");
    assert(digit_char(1) == '1' && digit_char(2) == '2');
    assert("$2b$"@ + seq![digit_char(1), digit_char(2)] + "$"@ =~= "$2b$12$"@);
}

/// A session is called by the numerals of its time and its process, one after the
/// other.
pub proof fn law_session_numerals(secs: u64, nanos: u32, pid: u32)
    ensures
        session_name(secs, nanos, pid) == hexadecimal(secs as nat) + hexadecimal(nanos as nat)
            + hexadecimal(pid as nat),
{
}

/// White space around an address does not change its domain.
pub proof fn law_padded_address(before: Seq<char>, url: Seq<char>, after: Seq<char>)
    requires
        all_space(before),
        all_space(after),
    ensures
        url_domain(before + url + after) == url_domain(url),
{
    law_padding_is_trimmed(before, url, after);
}

} // verus!
