//! What a private network means for the configuration of a Tor client.

use crate::net::{Fallback, Net, PrivateNet};
use crate::text::{agrees, all_hex, hex_value, is_hex_digit, text_of};
use vstd::prelude::*;

verus! {

/// A freshly-started testing network votes on short consensus lifetimes; be
/// tolerant of clock skew between its machines.
pub const TOLERANCE_SECS: u64 = 300;

/// A fallback directory cache, with its identities decoded.
#[derive(Debug, Clone, PartialEq, Eq)]
pub struct FallbackSettings {
    /// The RSA identity: 20 bytes.
    pub rsa: Vec<u8>,
    /// The Ed25519 identity: 32 bytes.
    pub ed: Vec<u8>,
    pub orport: String,
}

/// What a Tor client is to be configured with.
#[derive(Debug, Clone, PartialEq, Eq)]
pub struct NetSettings {
    /// The v3 identities of the authorities: 20 bytes each.
    pub v3idents: Vec<Vec<u8>>,
    pub fallbacks: Vec<FallbackSettings>,
    pub pre_valid_tolerance_secs: u64,
    pub post_valid_tolerance_secs: u64,
}

/// The mathematical content of a [`FallbackSettings`].
#[verifier::ext_equal]
pub struct Cache {
    pub rsa: Seq<u8>,
    pub ed: Seq<u8>,
    pub orport: Seq<char>,
}

/// The mathematical content of a [`NetSettings`].
#[verifier::ext_equal]
pub struct Settings {
    pub v3idents: Seq<Seq<u8>>,
    pub fallbacks: Seq<Cache>,
    pub pre_valid_tolerance_secs: nat,
    pub post_valid_tolerance_secs: nat,
}

/// The byte strings in a sequence of byte vectors.
pub open spec fn contents(vectors: Seq<Vec<u8>>) -> Seq<Seq<u8>> {
    Seq::new(vectors.len(), |i: int| vectors[i]@)
}

/// The contents of a sequence of [`FallbackSettings`].
pub open spec fn cache_contents(caches: Seq<FallbackSettings>) -> Seq<Cache> {
    Seq::new(caches.len(), |i: int| caches[i]@)
}

/// The bytes that an optional vector holds.
pub open spec fn bytes_of(vector: Option<Vec<u8>>) -> Option<Seq<u8>> {
    match vector {
        Some(bytes) => Some(bytes@),
        None => None,
    }
}

/// The texts of optional complaints.
pub open spec fn refusals(errors: Seq<Option<String>>) -> Seq<Option<Seq<char>>> {
    Seq::new(
        errors.len(),
        |i: int| text_of(errors[i]),
    )
}

impl View for FallbackSettings {
    type V = Cache;

    open spec fn view(&self) -> Cache {
        Cache { rsa: self.rsa@, ed: self.ed@, orport: self.orport@ }
    }
}

impl View for NetSettings {
    type V = Settings;

    open spec fn view(&self) -> Settings {
        Settings {
            v3idents: contents(self.v3idents@),
            fallbacks: cache_contents(self.fallbacks@),
            pre_valid_tolerance_secs: self.pre_valid_tolerance_secs as nat,
            post_valid_tolerance_secs: self.post_valid_tolerance_secs as nat,
        }
    }
}

/// The RSA identity that a text gives in hexadecimal: 20 bytes, two digits each,
/// the more significant digit first.
pub open spec fn rsa_id(text: Seq<char>) -> Option<Seq<u8>> {
    if text.len() == 40 && all_hex(text) {
        Some(
            Seq::new(
                20,
                |i: int|
                    (hex_value(text[2 * i]) * 16 + hex_value(text[2 * i + 1])) as u8,
            ),
        )
    } else {
        None
    }
}

/// The Ed25519 identity that a text gives in unpadded base64, if it gives one:
/// what `tor_llcrypto`'s `Ed25519Identity::from_base64` returns.
pub uninterp spec fn ed25519_id(text: Seq<char>) -> Option<Seq<u8>>;

/// `tor_llcrypto`'s `RsaIdentity::from_hex`: the 20 bytes that 40 hexadecimal
/// digits of either case denote; nothing for any other text.
#[verifier::external_body]
fn rsa_id_from_hex(text: &str) -> (id: Option<Vec<u8>>)
    ensures
        bytes_of(id) == rsa_id(text@),
{
    match tor_llcrypto::pk::rsa::RsaIdentity::from_hex(text) {
        Some(id) => Some(id.as_bytes().to_vec()),
        None => None,
    }
}

/// `tor_llcrypto`'s `Ed25519Identity::from_base64`: the result depends on the text
/// alone, and an identity has 32 bytes.
#[verifier::external_body]
fn ed25519_id_from_base64(text: &str) -> (id: Option<Vec<u8>>)
    ensures
        bytes_of(id) == ed25519_id(text@),
        id matches Some(bytes) ==> bytes@.len() == 32,
{
    match tor_llcrypto::pk::ed25519::Ed25519Identity::from_base64(text) {
        Some(id) => Some(id.as_bytes().to_vec()),
        None => None,
    }
}

/// Every Ed25519 identity has its 32 bytes.
pub open spec fn identities_are_whole(caches: Seq<FallbackSettings>) -> bool {
    forall|i: int| 0 <= i < caches.len() ==> (#[trigger] caches[i]).ed@.len() == 32
}

/// The identities of authorities, or the complaint about the first that has none.
pub open spec fn v3idents_of(authorities: Seq<(Seq<char>, Seq<char>)>) -> Result<
    Seq<Seq<u8>>,
    Seq<char>,
>
    decreases authorities.len(),
{
    if authorities.len() == 0 {
        Ok(Seq::empty())
    } else {
        match v3idents_of(authorities.drop_last()) {
            Err(complaint) => Err(complaint),
            Ok(known) => match rsa_id(authorities.last().1) {
                Some(id) => Ok(known.push(id)),
                None => Err(
                    "failed to parse v3ident "@ + authorities.last().0
                        + ": invalid hex or length"@,
                ),
            },
        }
    }
}

/// A fallback cache with its identities decoded, given both identities, or the
/// complaint about the first thing that is wrong with it.
pub open spec fn cache_of(
    rsa: Option<Seq<u8>>,
    ed: Option<Seq<u8>>,
    orport: Seq<char>,
    refused: Option<Seq<char>>,
) -> Result<Cache, Seq<char>> {
    match (rsa, ed, refused) {
        (None, _, _) => Err("fallback rsa: invalid hex or length"@),
        (_, None, _) => Err("fallback ed: invalid base64 or length"@),
        (_, _, Some(reason)) => Err("fallback orport: "@ + reason),
        (Some(rsa), Some(ed), None) => Ok(Cache { rsa, ed, orport }),
    }
}

/// The fallback caches with their identities decoded, or the complaint about the
/// first that is at fault.
pub open spec fn caches_of(
    fallbacks: Seq<(Seq<char>, Seq<char>, Seq<char>)>,
    refused: Seq<Option<Seq<char>>>,
) -> Result<Seq<Cache>, Seq<char>>
    decreases fallbacks.len(),
{
    if fallbacks.len() == 0 {
        Ok(Seq::empty())
    } else {
        match caches_of(fallbacks.drop_last(), refused.drop_last()) {
            Err(complaint) => Err(complaint),
            Ok(known) => {
                let (rsa, ed, orport) = fallbacks.last();
                match cache_of(rsa_id(rsa), ed25519_id(ed), orport, refused.last()) {
                    Err(complaint) => Err(complaint),
                    Ok(cache) => Ok(known.push(cache)),
                }
            },
        }
    }
}

/// The settings for a network, or the complaint about the first thing that is
/// wrong with it: the authorities come first, then the fallback caches.
pub open spec fn settings_of(net: Net, refused: Seq<Option<Seq<char>>>) -> Result<
    Settings,
    Seq<char>,
> {
    match v3idents_of(net.authorities) {
        Err(complaint) => Err(complaint),
        Ok(v3idents) => match caches_of(net.fallbacks, refused) {
            Err(complaint) => Err(complaint),
            Ok(fallbacks) => Ok(
                Settings {
                    v3idents,
                    fallbacks,
                    pre_valid_tolerance_secs: TOLERANCE_SECS as nat,
                    post_valid_tolerance_secs: TOLERANCE_SECS as nat,
                },
            ),
        },
    }
}

/// Puts a fallback cache together out of what decoding it gave.
pub fn assemble(
    rsa: Option<Vec<u8>>,
    ed: Option<Vec<u8>>,
    orport: &str,
    refused: &Option<String>,
) -> (cache: Result<FallbackSettings, String>)
    ensures
        agrees(
            cache,
            cache_of(bytes_of(rsa), bytes_of(ed), orport@, text_of(*refused)),
        ),
{
    match rsa {
        None => Err("fallback rsa: invalid hex or length".to_owned()),
        Some(rsa) => match ed {
            None => Err("fallback ed: invalid base64 or length".to_owned()),
            Some(ed) => match refused {
                Some(reason) => {
                    let mut text = "fallback orport: ".to_owned();
                    text.append(reason.as_str());
                    Err(text)
                },
                None => Ok(FallbackSettings { rsa, ed, orport: orport.to_owned() }),
            },
        },
    }
}

/// Decodes the identities of a fallback cache and puts it together.
fn resolve(fallback: &Fallback, refused: &Option<String>) -> (cache: Result<
    FallbackSettings,
    String,
>)
    ensures
        agrees(
            cache,
            cache_of(
                rsa_id(fallback.rsa@),
                ed25519_id(fallback.ed@),
                fallback.orport@,
                text_of(*refused),
            ),
        ),
        cache matches Ok(found) ==> found.ed@.len() == 32,
{
    assemble(
        rsa_id_from_hex(fallback.rsa.as_str()),
        ed25519_id_from_base64(fallback.ed.as_str()),
        fallback.orport.as_str(),
        refused,
    )
}

/// A complaint about some of the authorities is one about all of them.
proof fn v3idents_fail_early(authorities: Seq<(Seq<char>, Seq<char>)>, upto: int)
    requires
        0 <= upto <= authorities.len(),
        v3idents_of(authorities.take(upto)) is Err,
    ensures
        v3idents_of(authorities) == v3idents_of(authorities.take(upto)),
    decreases authorities.len() - upto,
{
    if upto == authorities.len() {
        assert(authorities.take(upto) =~= authorities);
    } else {
        assert(authorities.take(upto + 1).drop_last() =~= authorities.take(upto));
        v3idents_fail_early(authorities, upto + 1);
    }
}

/// A complaint about some of the fallback caches is one about all of them.
proof fn caches_fail_early(
    fallbacks: Seq<(Seq<char>, Seq<char>, Seq<char>)>,
    refused: Seq<Option<Seq<char>>>,
    upto: int,
)
    requires
        0 <= upto <= fallbacks.len(),
        refused.len() == fallbacks.len(),
        caches_of(fallbacks.take(upto), refused.take(upto)) is Err,
    ensures
        caches_of(fallbacks, refused) == caches_of(fallbacks.take(upto), refused.take(upto)),
    decreases fallbacks.len() - upto,
{
    if upto == fallbacks.len() {
        assert(fallbacks.take(upto) =~= fallbacks);
        assert(refused.take(upto) =~= refused);
    } else {
        assert(fallbacks.take(upto + 1).drop_last() =~= fallbacks.take(upto));
        assert(refused.take(upto + 1).drop_last() =~= refused.take(upto));
        caches_fail_early(fallbacks, refused, upto + 1);
    }
}

impl PrivateNet {
    /// The settings that put a Tor client on this network: custom authorities and
    /// fallbacks, and testing-network directory tolerances. `orport_errors` holds,
    /// for each fallback, what its address was refused for, if it was refused.
    pub fn apply(&self, orport_errors: &Vec<Option<String>>) -> (settings: Result<
        NetSettings,
        String,
    >)
        requires
            orport_errors@.len() == self.fallbacks@.len(),
        ensures
            agrees(settings, settings_of(self@, refusals(orport_errors@))),
            settings matches Ok(found) ==> identities_are_whole(found.fallbacks@),
    {
        let mut v3idents: Vec<Vec<u8>> = Vec::new();
        let ghost authorities = self@.authorities;
        let mut i: usize = 0;
        assert(authorities.take(0) =~= Seq::empty());
        assert(contents(v3idents@) =~= Seq::empty());
        while i < self.authorities.len()
            invariant
                i <= self.authorities@.len(),
                authorities == self@.authorities,
                v3idents_of(authorities.take(i as int)) == Ok::<Seq<Seq<u8>>, Seq<char>>(
                    contents(v3idents@),
                ),
            decreases self.authorities@.len() - i,
        {
            let ghost upto = authorities.take(i as int + 1);
            assert(upto.drop_last() =~= authorities.take(i as int));
            match rsa_id_from_hex(self.authorities[i].v3ident.as_str()) {
                Some(id) => {
                    let ghost known = contents(v3idents@);
                    v3idents.push(id);
                    assert(contents(v3idents@) =~= known.push(id@));
                },
                None => {
                    let mut text = "failed to parse v3ident ".to_owned();
                    text.append(self.authorities[i].name.as_str());
                    text.append(": invalid hex or length");
                    proof {
                        v3idents_fail_early(authorities, i as int + 1);
                    }
                    return Err(text);
                },
            }
            i = i + 1;
        }
        assert(authorities.take(i as int) =~= authorities);
        let mut caches: Vec<FallbackSettings> = Vec::new();
        let ghost fallbacks = self@.fallbacks;
        let ghost refused = refusals(orport_errors@);
        let mut k: usize = 0;
        assert(fallbacks.take(0) =~= Seq::empty());
        assert(refused.take(0) =~= Seq::empty());
        assert(cache_contents(caches@) =~= Seq::empty());
        while k < self.fallbacks.len()
            invariant
                k <= self.fallbacks@.len(),
                fallbacks == self@.fallbacks,
                refused == refusals(orport_errors@),
                orport_errors@.len() == self.fallbacks@.len(),
                caches_of(fallbacks.take(k as int), refused.take(k as int)) == Ok::<
                    Seq<Cache>,
                    Seq<char>,
                >(cache_contents(caches@)),
                v3idents_of(self@.authorities) is Ok,
                identities_are_whole(caches@),
            decreases self.fallbacks@.len() - k,
        {
            let ghost upto = fallbacks.take(k as int + 1);
            let ghost refused_upto = refused.take(k as int + 1);
            assert(upto.drop_last() =~= fallbacks.take(k as int));
            assert(refused_upto.drop_last() =~= refused.take(k as int));
            match resolve(&self.fallbacks[k], &orport_errors[k]) {
                Ok(cache) => {
                    let ghost known = cache_contents(caches@);
                    caches.push(cache);
                    assert(cache_contents(caches@) =~= known.push(cache@));
                },
                Err(complaint) => {
                    proof {
                        caches_fail_early(fallbacks, refused, k as int + 1);
                    }
                    return Err(complaint);
                },
            }
            k = k + 1;
        }
        assert(fallbacks.take(k as int) =~= fallbacks);
        assert(refused.take(k as int) =~= refused);
        Ok(
            NetSettings {
                v3idents,
                fallbacks: caches,
                pre_valid_tolerance_secs: TOLERANCE_SECS,
                post_valid_tolerance_secs: TOLERANCE_SECS,
            },
        )
    }
}

/// Settings match their network: one identity of 20 bytes for each authority, and
/// one cache at its own address for each fallback, all in their order.
pub proof fn settings_match_the_net(net: Net, refused: Seq<Option<Seq<char>>>)
    requires
        refused.len() == net.fallbacks.len(),
        settings_of(net, refused) is Ok,
    ensures
        ({
            let settings = settings_of(net, refused)->Ok_0;
            &&& settings.v3idents.len() == net.authorities.len()
            &&& forall|i: int|
                0 <= i < settings.v3idents.len() ==> rsa_id(net.authorities[i].1) == Some(
                    #[trigger] settings.v3idents[i],
                ) && settings.v3idents[i].len() == 20
            &&& settings.fallbacks.len() == net.fallbacks.len()
            &&& forall|i: int|
                0 <= i < settings.fallbacks.len() ==> {
                    let cache = #[trigger] settings.fallbacks[i];
                    &&& rsa_id(net.fallbacks[i].0) == Some(cache.rsa)
                    &&& ed25519_id(net.fallbacks[i].1) == Some(cache.ed)
                    &&& net.fallbacks[i].2 == cache.orport
                    &&& refused[i] is None
                }
        }),
{
    v3idents_match(net.authorities);
    caches_match(net.fallbacks, refused);
}

proof fn v3idents_match(authorities: Seq<(Seq<char>, Seq<char>)>)
    requires
        v3idents_of(authorities) is Ok,
    ensures
        ({
            let ids = v3idents_of(authorities)->Ok_0;
            &&& ids.len() == authorities.len()
            &&& forall|i: int|
                0 <= i < ids.len() ==> rsa_id(authorities[i].1) == Some(#[trigger] ids[i])
                    && ids[i].len() == 20
        }),
    decreases authorities.len(),
{
    if authorities.len() > 0 {
        v3idents_match(authorities.drop_last());
    }
}

proof fn caches_match(
    fallbacks: Seq<(Seq<char>, Seq<char>, Seq<char>)>,
    refused: Seq<Option<Seq<char>>>,
)
    requires
        refused.len() == fallbacks.len(),
        caches_of(fallbacks, refused) is Ok,
    ensures
        ({
            let caches = caches_of(fallbacks, refused)->Ok_0;
            &&& caches.len() == fallbacks.len()
            &&& forall|i: int|
                0 <= i < caches.len() ==> {
                    let cache = #[trigger] caches[i];
                    &&& rsa_id(fallbacks[i].0) == Some(cache.rsa)
                    &&& ed25519_id(fallbacks[i].1) == Some(cache.ed)
                    &&& fallbacks[i].2 == cache.orport
                    &&& refused[i] is None
                }
        }),
    decreases fallbacks.len(),
{
    if fallbacks.len() > 0 {
        caches_match(fallbacks.drop_last(), refused.drop_last());
    }
}

/// An identity in hexadecimal is read exactly from forty digits, two for each byte, the
/// more significant first.
pub proof fn rsa_id_is_two_digits_a_byte(text: Seq<char>, i: int)
    ensures
        rsa_id(text) is Some <==> text.len() == 40 && forall|k: int|
            0 <= k < 40 ==> is_hex_digit(#[trigger] text[k]),
        rsa_id(text) matches Some(id) ==> id.len() == 20 && (0 <= i < 20 ==> id[i] == 16
            * hex_value(text[2 * i]) + hex_value(text[2 * i + 1])),
{
    if rsa_id(text) is Some && 0 <= i < 20 {
        assert(is_hex_digit(text[2 * i]) && is_hex_digit(text[2 * i + 1]));
    }
}

/// What is wrong with a fallback cache, if anything is, is found in the order of its
/// fields.
pub proof fn cache_faults_are_found_in_order(
    rsa: Option<Seq<u8>>,
    ed: Option<Seq<u8>>,
    orport: Seq<char>,
    refused: Option<Seq<char>>,
)
    ensures
        rsa is None ==> cache_of(rsa, ed, orport, refused) == Err::<Cache, Seq<char>>(
            "fallback rsa: invalid hex or length"@,
        ),
        rsa is Some && ed is None ==> cache_of(rsa, ed, orport, refused) == Err::<Cache, Seq<char>>(
            "fallback ed: invalid base64 or length"@,
        ),
        rsa is Some && ed is Some && refused is Some ==> cache_of(rsa, ed, orport, refused)
            == Err::<Cache, Seq<char>>("fallback orport: "@ + refused->0),
        rsa is Some && ed is Some && refused is None ==> {
            &&& cache_of(rsa, ed, orport, refused) matches Ok(cache)
            &&& cache.rsa == rsa->0 && cache.ed == ed->0 && cache.orport == orport
        },
{
}

/// The identities of authorities are all read, or the first that cannot be is
/// complained of by its name, whatever stands behind it.
pub proof fn first_unread_authority_is_complained_of(
    authorities: Seq<(Seq<char>, Seq<char>)>,
    k: int,
)
    requires
        0 <= k <= authorities.len(),
        forall|i: int| 0 <= i < k ==> rsa_id((#[trigger] authorities[i]).1) is Some,
    ensures
        k == authorities.len() ==> v3idents_of(authorities) is Ok,
        k < authorities.len() && rsa_id(authorities[k].1) is None ==> v3idents_of(authorities)
            == Err::<Seq<Seq<u8>>, Seq<char>>(
            "failed to parse v3ident "@ + authorities[k].0 + ": invalid hex or length"@,
        ),
    decreases authorities.len(),
{
    if k == authorities.len() {
        if k > 0 {
            let fewer = authorities.drop_last();
            assert forall|i: int| 0 <= i < fewer.len() implies rsa_id((#[trigger] fewer[i]).1)
                is Some by {
                assert(fewer[i] == authorities[i]);
            }
            first_unread_authority_is_complained_of(fewer, k - 1);
            assert(rsa_id(authorities[k - 1].1) is Some);
        }
    } else if rsa_id(authorities[k].1) is None {
        let known = authorities.take(k);
        assert forall|i: int| 0 <= i < known.len() implies rsa_id((#[trigger] known[i]).1)
            is Some by {
            assert(known[i] == authorities[i]);
        }
        first_unread_authority_is_complained_of(known, k);
        assert(authorities.take(k + 1).drop_last() =~= known);
        v3idents_fail_early(authorities, k + 1);
    }
}

/// Whether nothing is wrong with the fallback cache at place `i`.
pub open spec fn cache_is_in_order(
    fallbacks: Seq<(Seq<char>, Seq<char>, Seq<char>)>,
    refused: Seq<Option<Seq<char>>>,
    i: int,
) -> bool {
    rsa_id(fallbacks[i].0) is Some && ed25519_id(fallbacks[i].1) is Some && refused[i] is None
}

/// The fallback caches are all put together, or the first with which something is wrong
/// is complained of, whatever stands behind it.
pub proof fn first_faulty_cache_is_complained_of(
    fallbacks: Seq<(Seq<char>, Seq<char>, Seq<char>)>,
    refused: Seq<Option<Seq<char>>>,
    k: int,
)
    requires
        refused.len() == fallbacks.len(),
        0 <= k <= fallbacks.len(),
        forall|i: int| 0 <= i < k ==> #[trigger] cache_is_in_order(fallbacks, refused, i),
    ensures
        k == fallbacks.len() ==> caches_of(fallbacks, refused) is Ok,
        k < fallbacks.len() && !cache_is_in_order(fallbacks, refused, k) ==> caches_of(
            fallbacks,
            refused,
        ) == Err::<Seq<Cache>, Seq<char>>(
            if rsa_id(fallbacks[k].0) is None {
                "fallback rsa: invalid hex or length"@
            } else if ed25519_id(fallbacks[k].1) is None {
                "fallback ed: invalid base64 or length"@
            } else {
                "fallback orport: "@ + refused[k]->0
            },
        ),
    decreases fallbacks.len(),
{
    if k == fallbacks.len() {
        if k > 0 {
            let (fewer, fewer_refused) = (fallbacks.drop_last(), refused.drop_last());
            assert forall|i: int| 0 <= i < fewer.len() implies #[trigger] cache_is_in_order(
                fewer,
                fewer_refused,
                i,
            ) by {
                assert(cache_is_in_order(fallbacks, refused, i));
            }
            first_faulty_cache_is_complained_of(fewer, fewer_refused, k - 1);
            assert(cache_is_in_order(fallbacks, refused, k - 1));
        }
    } else if !cache_is_in_order(fallbacks, refused, k) {
        let (known, known_refused) = (fallbacks.take(k), refused.take(k));
        assert forall|i: int| 0 <= i < known.len() implies #[trigger] cache_is_in_order(
            known,
            known_refused,
            i,
        ) by {
            assert(cache_is_in_order(fallbacks, refused, i));
        }
        first_faulty_cache_is_complained_of(known, known_refused, k);
        assert(fallbacks.take(k + 1).drop_last() =~= known);
        assert(refused.take(k + 1).drop_last() =~= known_refused);
        caches_fail_early(fallbacks, refused, k + 1);
    }
}

/// A network has settings exactly if its authorities and its fallback caches have
/// theirs; a complaint about the authorities comes before one about the caches. The
/// tolerances are five minutes in both directions.
pub proof fn settings_need_every_entry(net: Net, refused: Seq<Option<Seq<char>>>)
    ensures
        settings_of(net, refused) is Ok <==> v3idents_of(net.authorities) is Ok && caches_of(
            net.fallbacks,
            refused,
        ) is Ok,
        settings_of(net, refused) matches Ok(settings) ==> settings.pre_valid_tolerance_secs == 300
            && settings.post_valid_tolerance_secs == 300,
        v3idents_of(net.authorities) matches Err(words) ==> settings_of(net, refused) == Err::<
            Settings,
            Seq<char>,
        >(words),
        v3idents_of(net.authorities) is Ok && caches_of(net.fallbacks, refused) is Err ==>
            settings_of(net, refused) == Err::<Settings, Seq<char>>(
            caches_of(net.fallbacks, refused)->Err_0,
        ),
{
}

/// Settings say the same as their content: no identity, no byte and no address is left
/// out, and what an address was refused for is kept in its own words.
pub proof fn settings_hide_nothing(
    settings: NetSettings,
    errors: Seq<Option<String>>,
    vector: Option<Vec<u8>>,
    i: int,
)
    ensures
        settings@.v3idents.len() == settings.v3idents@.len(),
        0 <= i < settings.v3idents@.len() ==> settings@.v3idents[i] == settings.v3idents@[i]@,
        settings@.fallbacks.len() == settings.fallbacks@.len(),
        0 <= i < settings.fallbacks@.len() ==> {
            &&& settings@.fallbacks[i].rsa == settings.fallbacks@[i].rsa@
            &&& settings@.fallbacks[i].ed == settings.fallbacks@[i].ed@
            &&& settings@.fallbacks[i].orport == settings.fallbacks@[i].orport@
        },
        settings@.pre_valid_tolerance_secs == settings.pre_valid_tolerance_secs,
        settings@.post_valid_tolerance_secs == settings.post_valid_tolerance_secs,
        refusals(errors).len() == errors.len(),
        0 <= i < errors.len() ==> (errors[i] is Some <==> refusals(errors)[i] is Some),
        0 <= i < errors.len() ==> (errors[i] matches Some(words) ==> refusals(errors)[i] == Some(
            words@,
        )),
        vector is Some <==> bytes_of(vector) is Some,
        vector matches Some(bytes) ==> bytes_of(vector) == Some(bytes@),
{
}

} // verus!
