//! The wire form of the session credential: a self-delimiting character
//! encoding of the credential and the identity it carries, framed by the
//! token codec. Every field is length-prefixed, so decoding is exact and
//! encoding round-trips.

use vstd::prelude::*;
use vstd::bytes::{spec_u64_to_le_bytes, spec_u64_from_le_bytes, u64_to_le_bytes, u64_from_le_bytes,
    lemma_auto_spec_u64_to_from_le_bytes};
use crate::hex::{is_hex_digit, hex_of_bytes, bytes_of_hex, bytes_to_hex, hex_region_to_bytes,
    lemma_hex_of_bytes_len, lemma_hex_of_bytes_digits, lemma_bytes_of_hex_of_bytes,
    lemma_bytes_of_hex_len};
use crate::model::{OAuthProviderType, ProviderTypeView, YggdrasilKVPair, KVPairView,
    YggdrasilProfile, ProfileView, UnifiedUserInfo, UserInfoView, TokenInformation,
    TokenInformationView};
use crate::text::{chars_of_str, string_from_chars, push_all};

verus! {

// ===== unsigned 64-bit numbers: sixteen hexadecimal digits =====

/// The wire form of a number: its eight little-endian bytes in hexadecimal.
pub open spec fn enc_u64(n: u64) -> Seq<char> {
    hex_of_bytes(spec_u64_to_le_bytes(n))
}

/// Reads a number at `i`: sixteen hexadecimal digits, or failure.
pub open spec fn dec_u64(s: Seq<char>, i: int) -> Option<(u64, int)> {
    if 0 <= i && i + 16 <= s.len() && (forall|j: int| i <= j < i + 16 ==> is_hex_digit(s[j])) {
        Option::Some((spec_u64_from_le_bytes(bytes_of_hex(s.subrange(i, i + 16))), i + 16))
    } else {
        Option::None
    }
}

pub proof fn lemma_enc_u64_shape(n: u64)
    ensures
        enc_u64(n).len() == 16,
        forall|j: int| 0 <= j < 16 ==> is_hex_digit(enc_u64(n)[j]),
{
    lemma_auto_spec_u64_to_from_le_bytes();
    lemma_hex_of_bytes_len(spec_u64_to_le_bytes(n));
    lemma_hex_of_bytes_digits(spec_u64_to_le_bytes(n));
}

pub proof fn lemma_dec_enc_u64(n: u64, a: Seq<char>, b: Seq<char>)
    ensures
        dec_u64(a + enc_u64(n) + b, a.len() as int) == Option::Some(
            (n, a.len() as int + 16),
        ),
{
    lemma_auto_spec_u64_to_from_le_bytes();
    lemma_enc_u64_shape(n);
    let s = a + enc_u64(n) + b;
    let i = a.len() as int;
    assert(s.subrange(i, i + 16) =~= enc_u64(n));
    assert forall|j: int| i <= j < i + 16 implies is_hex_digit(s[j]) by {
        assert(s[j] == enc_u64(n)[j - i]);
    }
    lemma_bytes_of_hex_of_bytes(spec_u64_to_le_bytes(n));
}

// ===== character strings: a length, then the characters themselves =====

/// The wire form of a string: its length, then its characters.
pub open spec fn enc_lstr(p: Seq<char>) -> Seq<char> {
    enc_u64(p.len() as u64) + p
}

/// Reads a string at `i`: a length, then that many characters.
pub open spec fn dec_lstr(s: Seq<char>, i: int) -> Option<(Seq<char>, int)> {
    match dec_u64(s, i) {
        Option::None => Option::None,
        Option::Some((n, j)) => if j + n as int <= s.len() {
            Option::Some((s.subrange(j, j + n as int), j + n as int))
        } else {
            Option::None
        },
    }
}

pub proof fn lemma_dec_enc_lstr(p: Seq<char>, a: Seq<char>, b: Seq<char>)
    requires
        p.len() <= u64::MAX,
    ensures
        dec_lstr(a + enc_lstr(p) + b, a.len() as int) == Option::Some(
            (p, (a.len() + enc_lstr(p).len()) as int),
        ),
{
    let n = p.len() as u64;
    let s = a + enc_lstr(p) + b;
    assert(s =~= a + enc_u64(n) + (p + b));
    lemma_dec_enc_u64(n, a, p + b);
    lemma_enc_u64_shape(n);
    let j = a.len() as int + 16;
    assert(s.subrange(j, j + n as int) =~= p);
}

/// Splitting a concatenation either side of one segment.
proof fn lemma_peel(a: Seq<char>, x: Seq<char>, r: Seq<char>, b: Seq<char>)
    ensures
        a + (x + r) + b == (a + x) + r + b,
        a + (x + r) + b == a + x + (r + b),
{
    assert(a + (x + r) + b =~= (a + x) + r + b);
    assert(a + (x + r) + b =~= a + x + (r + b));
}

// ===== provider kinds: a tag character, with the site for Blessing Skin =====

/// The wire form of a provider kind.
pub open spec fn enc_kind(k: ProviderTypeView) -> Seq<char> {
    match k {
        ProviderTypeView::Microsoft => seq!['M'],
        ProviderTypeView::BlessingSkin(u) => seq!['B'] + enc_lstr(u),
    }
}

/// Reads a provider kind at `i`.
pub open spec fn dec_kind(s: Seq<char>, i: int) -> Option<(ProviderTypeView, int)> {
    if 0 <= i < s.len() {
        if s[i] == 'M' {
            Option::Some((ProviderTypeView::Microsoft, i + 1))
        } else if s[i] == 'B' {
            match dec_lstr(s, i + 1) {
                Option::None => Option::None,
                Option::Some((u, j)) => Option::Some((ProviderTypeView::BlessingSkin(u), j)),
            }
        } else {
            Option::None
        }
    } else {
        Option::None
    }
}

pub open spec fn wf_kind(k: ProviderTypeView) -> bool {
    match k {
        ProviderTypeView::BlessingSkin(u) => u.len() <= u64::MAX,
        ProviderTypeView::Microsoft => true,
    }
}

pub proof fn lemma_dec_enc_kind(k: ProviderTypeView, a: Seq<char>, b: Seq<char>)
    requires
        wf_kind(k),
    ensures
        dec_kind(a + enc_kind(k) + b, a.len() as int) == Option::Some(
            (k, (a.len() + enc_kind(k).len()) as int),
        ),
{
    let s = a + enc_kind(k) + b;
    let i = a.len() as int;
    match k {
        ProviderTypeView::Microsoft => {
            assert(s[i] == 'M');
        },
        ProviderTypeView::BlessingSkin(u) => {
            assert(s[i] == 'B');
            lemma_peel(a, seq!['B'], enc_lstr(u), b);
            lemma_dec_enc_lstr(u, a + seq!['B'], b);
            assert((a + seq!['B']).len() as int == i + 1);
        },
    }
}

// ===== profile properties =====

/// The wire form of one profile property.
pub open spec fn enc_pair(v: KVPairView) -> Seq<char> {
    enc_lstr(v.name) + enc_lstr(v.value)
}

/// Reads one profile property at `i`.
pub open spec fn dec_pair(s: Seq<char>, i: int) -> Option<(KVPairView, int)> {
    match dec_lstr(s, i) {
        Option::None => Option::None,
        Option::Some((nm, j)) => match dec_lstr(s, j) {
            Option::None => Option::None,
            Option::Some((vl, k)) => Option::Some((KVPairView { name: nm, value: vl }, k)),
        },
    }
}

pub open spec fn wf_pair(v: KVPairView) -> bool {
    v.name.len() <= u64::MAX && v.value.len() <= u64::MAX
}

pub proof fn lemma_dec_enc_pair(v: KVPairView, a: Seq<char>, b: Seq<char>)
    requires
        wf_pair(v),
    ensures
        dec_pair(a + enc_pair(v) + b, a.len() as int) == Option::Some(
            (v, (a.len() + enc_pair(v).len()) as int),
        ),
{
    lemma_peel(a, enc_lstr(v.name), enc_lstr(v.value), b);
    lemma_dec_enc_lstr(v.name, a, enc_lstr(v.value) + b);
    lemma_dec_enc_lstr(v.value, a + enc_lstr(v.name), b);
}

/// The wire form of a run of properties, element after element.
pub open spec fn enc_pairs_items(xs: Seq<KVPairView>) -> Seq<char>
    decreases xs.len(),
{
    if xs.len() == 0 {
        Seq::<char>::empty()
    } else {
        enc_pair(xs[0]) + enc_pairs_items(xs.drop_first())
    }
}

/// Reads `n` properties starting at `i`.
pub open spec fn dec_pairs_items(s: Seq<char>, i: int, n: nat) -> Option<(Seq<KVPairView>, int)>
    decreases n,
{
    if n == 0 {
        Option::Some((Seq::<KVPairView>::empty(), i))
    } else {
        match dec_pair(s, i) {
            Option::None => Option::None,
            Option::Some((x, j)) => match dec_pairs_items(s, j, (n - 1) as nat) {
                Option::None => Option::None,
                Option::Some((xs, k)) => Option::Some((seq![x] + xs, k)),
            },
        }
    }
}

/// The wire form of a property list: a count, then the run of elements.
pub open spec fn enc_pairs(xs: Seq<KVPairView>) -> Seq<char> {
    enc_u64(xs.len() as u64) + enc_pairs_items(xs)
}

/// Reads a property list at `i`.
pub open spec fn dec_pairs(s: Seq<char>, i: int) -> Option<(Seq<KVPairView>, int)> {
    match dec_u64(s, i) {
        Option::None => Option::None,
        Option::Some((n, j)) => dec_pairs_items(s, j, n as nat),
    }
}

pub open spec fn wf_pairs(xs: Seq<KVPairView>) -> bool {
    xs.len() <= u64::MAX && forall|t: int| 0 <= t < xs.len() ==> wf_pair(#[trigger] xs[t])
}

#[verifier::rlimit(100)]
#[verifier::spinoff_prover]
pub proof fn lemma_dec_enc_pairs_items(xs: Seq<KVPairView>, a: Seq<char>, b: Seq<char>)
    requires
        forall|t: int| 0 <= t < xs.len() ==> wf_pair(#[trigger] xs[t]),
    ensures
        dec_pairs_items(a + enc_pairs_items(xs) + b, a.len() as int, xs.len()) == Option::Some(
            (xs, (a.len() + enc_pairs_items(xs).len()) as int),
        ),
    decreases xs.len(),
{
    let s = a + enc_pairs_items(xs) + b;
    if xs.len() == 0 {
        assert(xs =~= Seq::<KVPairView>::empty());
        assert(enc_pairs_items(xs).len() == 0);
    } else {
        let rest = enc_pairs_items(xs.drop_first());
        lemma_peel(a, enc_pair(xs[0]), rest, b);
        lemma_dec_enc_pair(xs[0], a, rest + b);
        lemma_dec_enc_pairs_items(xs.drop_first(), a + enc_pair(xs[0]), b);
        assert(seq![xs[0]] + xs.drop_first() =~= xs);
    }
}

pub proof fn lemma_dec_enc_pairs(xs: Seq<KVPairView>, a: Seq<char>, b: Seq<char>)
    requires
        wf_pairs(xs),
    ensures
        dec_pairs(a + enc_pairs(xs) + b, a.len() as int) == Option::Some(
            (xs, (a.len() + enc_pairs(xs).len()) as int),
        ),
{
    let n = xs.len() as u64;
    lemma_peel(a, enc_u64(n), enc_pairs_items(xs), b);
    lemma_dec_enc_u64(n, a, enc_pairs_items(xs) + b);
    lemma_enc_u64_shape(n);
    lemma_dec_enc_pairs_items(xs, a + enc_u64(n), b);
}

// ===== player profiles =====

/// The wire form of one player profile.
pub open spec fn enc_profile(v: ProfileView) -> Seq<char> {
    enc_lstr(v.id) + (enc_lstr(v.name) + enc_pairs(v.properties))
}

/// Reads one player profile at `i`.
pub open spec fn dec_profile(s: Seq<char>, i: int) -> Option<(ProfileView, int)> {
    match dec_lstr(s, i) {
        Option::None => Option::None,
        Option::Some((id, j)) => match dec_lstr(s, j) {
            Option::None => Option::None,
            Option::Some((nm, k)) => match dec_pairs(s, k) {
                Option::None => Option::None,
                Option::Some((ps, l)) => Option::Some(
                    (ProfileView { id: id, name: nm, properties: ps }, l),
                ),
            },
        },
    }
}

pub open spec fn wf_profile(v: ProfileView) -> bool {
    v.id.len() <= u64::MAX && v.name.len() <= u64::MAX && wf_pairs(v.properties)
}

#[verifier::rlimit(100)]
#[verifier::spinoff_prover]
pub proof fn lemma_dec_enc_profile(v: ProfileView, a: Seq<char>, b: Seq<char>)
    requires
        wf_profile(v),
    ensures
        dec_profile(a + enc_profile(v) + b, a.len() as int) == Option::Some(
            (v, (a.len() + enc_profile(v).len()) as int),
        ),
{
    let e1 = enc_lstr(v.id);
    let e2 = enc_lstr(v.name);
    let e3 = enc_pairs(v.properties);
    lemma_peel(a, e1, e2 + e3, b);
    lemma_dec_enc_lstr(v.id, a, (e2 + e3) + b);
    lemma_peel(a + e1, e2, e3, b);
    lemma_dec_enc_lstr(v.name, a + e1, e3 + b);
    lemma_dec_enc_pairs(v.properties, (a + e1) + e2, b);
}

/// The wire form of a run of profiles.
pub open spec fn enc_profiles_items(xs: Seq<ProfileView>) -> Seq<char>
    decreases xs.len(),
{
    if xs.len() == 0 {
        Seq::<char>::empty()
    } else {
        enc_profile(xs[0]) + enc_profiles_items(xs.drop_first())
    }
}

/// Reads `n` profiles starting at `i`.
pub open spec fn dec_profiles_items(s: Seq<char>, i: int, n: nat) -> Option<
    (Seq<ProfileView>, int),
>
    decreases n,
{
    if n == 0 {
        Option::Some((Seq::<ProfileView>::empty(), i))
    } else {
        match dec_profile(s, i) {
            Option::None => Option::None,
            Option::Some((x, j)) => match dec_profiles_items(s, j, (n - 1) as nat) {
                Option::None => Option::None,
                Option::Some((xs, k)) => Option::Some((seq![x] + xs, k)),
            },
        }
    }
}

/// The wire form of a profile list: a count, then the run of elements.
pub open spec fn enc_profiles(xs: Seq<ProfileView>) -> Seq<char> {
    enc_u64(xs.len() as u64) + enc_profiles_items(xs)
}

/// Reads a profile list at `i`.
pub open spec fn dec_profiles(s: Seq<char>, i: int) -> Option<(Seq<ProfileView>, int)> {
    match dec_u64(s, i) {
        Option::None => Option::None,
        Option::Some((n, j)) => dec_profiles_items(s, j, n as nat),
    }
}

pub open spec fn wf_profiles(xs: Seq<ProfileView>) -> bool {
    xs.len() <= u64::MAX && forall|t: int| 0 <= t < xs.len() ==> wf_profile(#[trigger] xs[t])
}

#[verifier::rlimit(100)]
#[verifier::spinoff_prover]
pub proof fn lemma_dec_enc_profiles_items(xs: Seq<ProfileView>, a: Seq<char>, b: Seq<char>)
    requires
        forall|t: int| 0 <= t < xs.len() ==> wf_profile(#[trigger] xs[t]),
    ensures
        dec_profiles_items(a + enc_profiles_items(xs) + b, a.len() as int, xs.len())
            == Option::Some((xs, (a.len() + enc_profiles_items(xs).len()) as int)),
    decreases xs.len(),
{
    let s = a + enc_profiles_items(xs) + b;
    if xs.len() == 0 {
        assert(xs =~= Seq::<ProfileView>::empty());
        assert(enc_profiles_items(xs).len() == 0);
    } else {
        let rest = enc_profiles_items(xs.drop_first());
        lemma_peel(a, enc_profile(xs[0]), rest, b);
        lemma_dec_enc_profile(xs[0], a, rest + b);
        lemma_dec_enc_profiles_items(xs.drop_first(), a + enc_profile(xs[0]), b);
        assert(seq![xs[0]] + xs.drop_first() =~= xs);
    }
}

pub proof fn lemma_dec_enc_profiles(xs: Seq<ProfileView>, a: Seq<char>, b: Seq<char>)
    requires
        wf_profiles(xs),
    ensures
        dec_profiles(a + enc_profiles(xs) + b, a.len() as int) == Option::Some(
            (xs, (a.len() + enc_profiles(xs).len()) as int),
        ),
{
    let n = xs.len() as u64;
    lemma_peel(a, enc_u64(n), enc_profiles_items(xs), b);
    lemma_dec_enc_u64(n, a, enc_profiles_items(xs) + b);
    lemma_enc_u64_shape(n);
    lemma_dec_enc_profiles_items(xs, a + enc_u64(n), b);
}

// ===== the normalized identity =====

/// The wire form of a normalized identity.
pub open spec fn enc_user(u: UserInfoView) -> Seq<char> {
    enc_lstr(u.uid) + (enc_lstr(u.nickname) + (enc_lstr(u.email) + (enc_lstr(u.provider)
        + (enc_kind(u.provider_type) + enc_profiles(u.profiles)))))
}

/// Reads a normalized identity at `i`.
pub open spec fn dec_user(s: Seq<char>, i: int) -> Option<(UserInfoView, int)> {
    match dec_lstr(s, i) {
        Option::None => Option::None,
        Option::Some((uid, i1)) => match dec_lstr(s, i1) {
            Option::None => Option::None,
            Option::Some((nick, i2)) => match dec_lstr(s, i2) {
                Option::None => Option::None,
                Option::Some((email, i3)) => match dec_lstr(s, i3) {
                    Option::None => Option::None,
                    Option::Some((prov, i4)) => match dec_kind(s, i4) {
                        Option::None => Option::None,
                        Option::Some((kind, i5)) => match dec_profiles(s, i5) {
                            Option::None => Option::None,
                            Option::Some((profs, i6)) => Option::Some(
                                (
                                    UserInfoView {
                                        uid: uid,
                                        nickname: nick,
                                        email: email,
                                        provider: prov,
                                        provider_type: kind,
                                        profiles: profs,
                                    },
                                    i6,
                                ),
                            ),
                        },
                    },
                },
            },
        },
    }
}

pub open spec fn wf_user(u: UserInfoView) -> bool {
    u.uid.len() <= u64::MAX && u.nickname.len() <= u64::MAX && u.email.len() <= u64::MAX
        && u.provider.len() <= u64::MAX && wf_kind(u.provider_type) && wf_profiles(u.profiles)
}

#[verifier::rlimit(100)]
#[verifier::spinoff_prover]
pub proof fn lemma_dec_enc_user(u: UserInfoView, a: Seq<char>, b: Seq<char>)
    requires
        wf_user(u),
    ensures
        dec_user(a + enc_user(u) + b, a.len() as int) == Option::Some(
            (u, (a.len() + enc_user(u).len()) as int),
        ),
{
    let e1 = enc_lstr(u.uid);
    let e2 = enc_lstr(u.nickname);
    let e3 = enc_lstr(u.email);
    let e4 = enc_lstr(u.provider);
    let e5 = enc_kind(u.provider_type);
    let e6 = enc_profiles(u.profiles);
    lemma_peel(a, e1, e2 + (e3 + (e4 + (e5 + e6))), b);
    lemma_dec_enc_lstr(u.uid, a, (e2 + (e3 + (e4 + (e5 + e6)))) + b);
    lemma_peel(a + e1, e2, e3 + (e4 + (e5 + e6)), b);
    lemma_dec_enc_lstr(u.nickname, a + e1, (e3 + (e4 + (e5 + e6))) + b);
    lemma_peel((a + e1) + e2, e3, e4 + (e5 + e6), b);
    lemma_dec_enc_lstr(u.email, (a + e1) + e2, (e4 + (e5 + e6)) + b);
    lemma_peel(((a + e1) + e2) + e3, e4, e5 + e6, b);
    lemma_dec_enc_lstr(u.provider, ((a + e1) + e2) + e3, (e5 + e6) + b);
    lemma_peel((((a + e1) + e2) + e3) + e4, e5, e6, b);
    lemma_dec_enc_kind(u.provider_type, (((a + e1) + e2) + e3) + e4, e6 + b);
    lemma_dec_enc_profiles(u.profiles, ((((a + e1) + e2) + e3) + e4) + e5, b);
}

// ===== the session credential =====

/// The wire form of a session credential.
pub open spec fn enc_token(t: TokenInformationView) -> Seq<char> {
    enc_lstr(t.access_token) + (enc_lstr(t.provider_name) + (enc_u64(t.expire_date) + enc_user(
        t.user_info,
    )))
}

/// Reads a session credential at `i`.
pub open spec fn dec_token(s: Seq<char>, i: int) -> Option<(TokenInformationView, int)> {
    match dec_lstr(s, i) {
        Option::None => Option::None,
        Option::Some((at, i1)) => match dec_lstr(s, i1) {
            Option::None => Option::None,
            Option::Some((pn, i2)) => match dec_u64(s, i2) {
                Option::None => Option::None,
                Option::Some((exp, i3)) => match dec_user(s, i3) {
                    Option::None => Option::None,
                    Option::Some((ui, i4)) => Option::Some(
                        (
                            TokenInformationView {
                                access_token: at,
                                provider_name: pn,
                                expire_date: exp,
                                user_info: ui,
                            },
                            i4,
                        ),
                    ),
                },
            },
        },
    }
}

pub open spec fn wf_token(t: TokenInformationView) -> bool {
    t.access_token.len() <= u64::MAX && t.provider_name.len() <= u64::MAX && wf_user(t.user_info)
}

#[verifier::rlimit(100)]
#[verifier::spinoff_prover]
pub proof fn lemma_dec_enc_token(t: TokenInformationView, a: Seq<char>, b: Seq<char>)
    requires
        wf_token(t),
    ensures
        dec_token(a + enc_token(t) + b, a.len() as int) == Option::Some(
            (t, (a.len() + enc_token(t).len()) as int),
        ),
{
    let e1 = enc_lstr(t.access_token);
    let e2 = enc_lstr(t.provider_name);
    let e3 = enc_u64(t.expire_date);
    let e4 = enc_user(t.user_info);
    lemma_peel(a, e1, e2 + (e3 + e4), b);
    lemma_dec_enc_lstr(t.access_token, a, (e2 + (e3 + e4)) + b);
    lemma_peel(a + e1, e2, e3 + e4, b);
    lemma_dec_enc_lstr(t.provider_name, a + e1, (e3 + e4) + b);
    lemma_peel((a + e1) + e2, e3, e4, b);
    lemma_dec_enc_u64(t.expire_date, (a + e1) + e2, e4 + b);
    lemma_enc_u64_shape(t.expire_date);
    lemma_dec_enc_user(t.user_info, ((a + e1) + e2) + e3, b);
}

/// The credential a payload denotes, if it is exactly one credential's
/// wire form with nothing trailing.
pub open spec fn credential_of(p: Seq<char>) -> Option<TokenInformationView> {
    match dec_token(p, 0) {
        Option::None => Option::None,
        Option::Some((tv, j)) => if j == p.len() {
            Option::Some(tv)
        } else {
            Option::None
        },
    }
}

/// Decoding undoes encoding: a credential's wire form denotes exactly
/// that credential.
pub proof fn lemma_credential_roundtrip(t: TokenInformationView)
    requires
        wf_token(t),
    ensures
        credential_of(enc_token(t)) == Option::Some(t),
{
    lemma_dec_enc_token(t, Seq::<char>::empty(), Seq::<char>::empty());
    assert(Seq::<char>::empty() + enc_token(t) + Seq::<char>::empty() =~= enc_token(t));
}


// ===== executable encoding =====

/// The views of a vector of properties.
pub open spec fn pair_views(ps: Seq<YggdrasilKVPair>) -> Seq<KVPairView> {
    ps.map_values(|p: YggdrasilKVPair| p@)
}

/// The views of a vector of profiles.
pub open spec fn profile_views(ps: Seq<YggdrasilProfile>) -> Seq<ProfileView> {
    ps.map_values(|p: YggdrasilProfile| p@)
}

/// Regrouping a concatenation from the left to the right.
proof fn lemma_join(a: Seq<char>, x: Seq<char>, y: Seq<char>)
    ensures
        a + x + y == a + (x + y),
{
    assert(a + x + y =~= a + (x + y));
}

/// Appends the wire form of `n` to `out`.
fn encode_u64_into(n: u64, out: &mut Vec<char>)
    ensures
        final(out)@ == old(out)@ + enc_u64(n),
{
    let bytes = u64_to_le_bytes(n);
    let h = bytes_to_hex(bytes.as_slice());
    push_all(out, &h);
}

/// Appends the wire form of a string to `out`.
fn encode_lstr_into(s: &str, out: &mut Vec<char>)
    ensures
        final(out)@ == old(out)@ + enc_lstr(s@),
{
    let cs = chars_of_str(s);
    let n = cs.len() as u64;
    encode_u64_into(n, out);
    push_all(out, &cs);
    proof {
        lemma_join(old(out)@, enc_u64(n), cs@);
    }
}

/// Appends the wire form of a provider kind to `out`.
fn encode_kind_into(k: &OAuthProviderType, out: &mut Vec<char>)
    ensures
        final(out)@ == old(out)@ + enc_kind(k@),
{
    match k {
        OAuthProviderType::Microsoft => {
            out.push('M');
            proof {
                assert(old(out)@.push('M') =~= old(out)@ + seq!['M']);
            }
        },
        OAuthProviderType::BlessingSkin(u) => {
            out.push('B');
            proof {
                assert(old(out)@.push('B') =~= old(out)@ + seq!['B']);
            }
            encode_lstr_into(u.as_str(), out);
            proof {
                lemma_join(old(out)@, seq!['B'], enc_lstr(u@));
            }
        },
    }
}

/// Appends the wire form of one property to `out`.
fn encode_pair_into(p: &YggdrasilKVPair, out: &mut Vec<char>)
    ensures
        final(out)@ == old(out)@ + enc_pair(p@),
{
    encode_lstr_into(p.name.as_str(), out);
    encode_lstr_into(p.value.as_str(), out);
    proof {
        lemma_join(old(out)@, enc_lstr(p.name@), enc_lstr(p.value@));
    }
}

/// One more element extends the wire form of a run of properties.
proof fn lemma_enc_pairs_items_snoc(xs: Seq<KVPairView>, x: KVPairView)
    ensures
        enc_pairs_items(xs.push(x)) == enc_pairs_items(xs) + enc_pair(x),
    decreases xs.len(),
{
    if xs.len() == 0 {
        assert(xs.push(x).drop_first() =~= Seq::<KVPairView>::empty());
        assert(enc_pairs_items(Seq::<KVPairView>::empty()) + enc_pair(x) =~= enc_pair(x)
            + enc_pairs_items(Seq::<KVPairView>::empty()));
        assert(enc_pairs_items(xs) + enc_pair(x) =~= enc_pairs_items(xs.push(x)));
    } else {
        assert(xs.push(x).drop_first() =~= xs.drop_first().push(x));
        lemma_enc_pairs_items_snoc(xs.drop_first(), x);
        assert(enc_pair(xs[0]) + (enc_pairs_items(xs.drop_first()) + enc_pair(x)) =~= (enc_pair(
            xs[0],
        ) + enc_pairs_items(xs.drop_first())) + enc_pair(x));
        assert(xs.push(x)[0] == xs[0]);
    }
}

/// Appends the wire form of a property list to `out`.
fn encode_pairs_into(ps: &Vec<YggdrasilKVPair>, out: &mut Vec<char>)
    ensures
        final(out)@ == old(out)@ + enc_pairs(pair_views(ps@)),
{
    let n = ps.len() as u64;
    encode_u64_into(n, out);
    let mut i: usize = 0;
    while i < ps.len()
        invariant
            i <= ps@.len(),
            n == ps@.len() as u64,
            out@ == old(out)@ + enc_u64(n) + enc_pairs_items(pair_views(ps@).subrange(0, i as int)),
        decreases ps@.len() - i,
    {
        encode_pair_into(&ps[i], out);
        proof {
            let views = pair_views(ps@);
            assert(views.subrange(0, i + 1 as int) =~= views.subrange(0, i as int).push(
                views[i as int],
            ));
            lemma_enc_pairs_items_snoc(views.subrange(0, i as int), views[i as int]);
            lemma_join(old(out)@ + enc_u64(n), enc_pairs_items(views.subrange(0, i as int)),
                enc_pair(views[i as int]));
        }
        i = i + 1;
    }
    proof {
        assert(pair_views(ps@).subrange(0, ps@.len() as int) =~= pair_views(ps@));
        lemma_join(old(out)@, enc_u64(n), enc_pairs_items(pair_views(ps@)));
    }
}

/// Appends the wire form of one profile to `out`.
fn encode_profile_into(p: &YggdrasilProfile, out: &mut Vec<char>)
    ensures
        final(out)@ == old(out)@ + enc_profile(p@),
{
    encode_lstr_into(p.id.as_str(), out);
    encode_lstr_into(p.name.as_str(), out);
    encode_pairs_into(&p.properties, out);
    proof {
        assert(pair_views(p.properties@) =~= p@.properties);
        lemma_join(old(out)@ + enc_lstr(p.id@), enc_lstr(p.name@), enc_pairs(p@.properties));
        lemma_join(old(out)@, enc_lstr(p.id@), enc_lstr(p.name@) + enc_pairs(p@.properties));
    }
}

/// One more element extends the wire form of a run of profiles.
proof fn lemma_enc_profiles_items_snoc(xs: Seq<ProfileView>, x: ProfileView)
    ensures
        enc_profiles_items(xs.push(x)) == enc_profiles_items(xs) + enc_profile(x),
    decreases xs.len(),
{
    if xs.len() == 0 {
        assert(xs.push(x).drop_first() =~= Seq::<ProfileView>::empty());
        assert(enc_profiles_items(Seq::<ProfileView>::empty()) + enc_profile(x) =~= enc_profile(x)
            + enc_profiles_items(Seq::<ProfileView>::empty()));
        assert(enc_profiles_items(xs) + enc_profile(x) =~= enc_profiles_items(xs.push(x)));
    } else {
        assert(xs.push(x).drop_first() =~= xs.drop_first().push(x));
        lemma_enc_profiles_items_snoc(xs.drop_first(), x);
        assert(enc_profile(xs[0]) + (enc_profiles_items(xs.drop_first()) + enc_profile(x)) =~= (
        enc_profile(xs[0]) + enc_profiles_items(xs.drop_first())) + enc_profile(x));
        assert(xs.push(x)[0] == xs[0]);
    }
}

/// Appends the wire form of a profile list to `out`.
fn encode_profiles_into(ps: &Vec<YggdrasilProfile>, out: &mut Vec<char>)
    ensures
        final(out)@ == old(out)@ + enc_profiles(profile_views(ps@)),
{
    let n = ps.len() as u64;
    encode_u64_into(n, out);
    let mut i: usize = 0;
    while i < ps.len()
        invariant
            i <= ps@.len(),
            n == ps@.len() as u64,
            out@ == old(out)@ + enc_u64(n) + enc_profiles_items(
                profile_views(ps@).subrange(0, i as int),
            ),
        decreases ps@.len() - i,
    {
        encode_profile_into(&ps[i], out);
        proof {
            let views = profile_views(ps@);
            assert(views.subrange(0, i + 1 as int) =~= views.subrange(0, i as int).push(
                views[i as int],
            ));
            lemma_enc_profiles_items_snoc(views.subrange(0, i as int), views[i as int]);
            lemma_join(old(out)@ + enc_u64(n), enc_profiles_items(views.subrange(0, i as int)),
                enc_profile(views[i as int]));
        }
        i = i + 1;
    }
    proof {
        assert(profile_views(ps@).subrange(0, ps@.len() as int) =~= profile_views(ps@));
        lemma_join(old(out)@, enc_u64(n), enc_profiles_items(profile_views(ps@)));
    }
}

/// Appends the wire form of a normalized identity to `out`.
fn encode_user_into(u: &UnifiedUserInfo, out: &mut Vec<char>)
    ensures
        final(out)@ == old(out)@ + enc_user(u@),
{
    encode_lstr_into(u.uid.as_str(), out);
    encode_lstr_into(u.nickname.as_str(), out);
    encode_lstr_into(u.email.as_str(), out);
    encode_lstr_into(u.provider.as_str(), out);
    encode_kind_into(&u.provider_type, out);
    encode_profiles_into(&u.profiles, out);
    proof {
        assert(profile_views(u.profiles@) =~= u@.profiles);
        let e1 = enc_lstr(u.uid@);
        let e2 = enc_lstr(u.nickname@);
        let e3 = enc_lstr(u.email@);
        let e4 = enc_lstr(u.provider@);
        let e5 = enc_kind(u.provider_type@);
        let e6 = enc_profiles(u@.profiles);
        let a = old(out)@;
        lemma_join(a + e1 + e2 + e3 + e4, e5, e6);
        lemma_join(a + e1 + e2 + e3, e4, e5 + e6);
        lemma_join(a + e1 + e2, e3, e4 + (e5 + e6));
        lemma_join(a + e1, e2, e3 + (e4 + (e5 + e6)));
        lemma_join(a, e1, e2 + (e3 + (e4 + (e5 + e6))));
    }
}

/// Appends the wire form of a session credential to `out`.
fn encode_token_into(t: &TokenInformation, out: &mut Vec<char>)
    ensures
        final(out)@ == old(out)@ + enc_token(t@),
{
    encode_lstr_into(t.access_token.as_str(), out);
    encode_lstr_into(t.provider_name.as_str(), out);
    encode_u64_into(t.expire_date, out);
    encode_user_into(&t.user_info, out);
    proof {
        let e1 = enc_lstr(t.access_token@);
        let e2 = enc_lstr(t.provider_name@);
        let e3 = enc_u64(t.expire_date);
        let e4 = enc_user(t.user_info@);
        let a = old(out)@;
        lemma_join(a + e1 + e2, e3, e4);
        lemma_join(a + e1, e2, e3 + e4);
        lemma_join(a, e1, e2 + (e3 + e4));
    }
}

/// Renders a session credential in its wire form, ready to be signed.
pub fn encode_credential(t: &TokenInformation) -> (r: String)
    ensures
        r@ == enc_token(t@),
{
    let mut out: Vec<char> = Vec::new();
    encode_token_into(t, &mut out);
    proof {
        assert(Seq::<char>::empty() + enc_token(t@) =~= enc_token(t@));
    }
    string_from_chars(&out)
}


// ===== executable decoding =====

/// Reads a number at `i`.
fn decode_u64_at(v: &Vec<char>, i: usize) -> (r: Option<(u64, usize)>)
    requires
        i <= v@.len(),
    ensures
        match r {
            Option::Some((n, j)) => dec_u64(v@, i as int) == Option::Some((n, j as int)) && i <= j
                <= v@.len(),
            Option::None => dec_u64(v@, i as int) is None,
        },
{
    if v.len() - i < 16 {
        return None;
    }
    match hex_region_to_bytes(v.as_slice(), i, i + 16) {
        Some(bytes) => {
            proof {
                lemma_bytes_of_hex_len(v@.subrange(i as int, i as int + 16));
            }
            let x = u64_from_le_bytes(bytes.as_slice());
            Some((x, i + 16))
        },
        None => None,
    }
}

/// Reads a string at `i`.
fn decode_lstr_at(v: &Vec<char>, i: usize) -> (r: Option<(String, usize)>)
    requires
        i <= v@.len(),
    ensures
        match r {
            Option::Some((s, j)) => dec_lstr(v@, i as int) == Option::Some((s@, j as int)) && i <= j
                <= v@.len(),
            Option::None => dec_lstr(v@, i as int) is None,
        },
{
    let (n, j) = match decode_u64_at(v, i) {
        Some(p) => p,
        None => {
            return None;
        },
    };
    if n > (v.len() - j) as u64 {
        return None;
    }
    let m = n as usize;
    let vlen = v.len();
    let mut cs: Vec<char> = Vec::new();
    let mut t: usize = 0;
    while t < m
        invariant
            t <= m,
            j + m <= vlen,
            vlen == v@.len(),
            cs@ == v@.subrange(j as int, j as int + t as int),
        decreases m - t,
    {
        cs.push(v[j + t]);
        proof {
            assert(v@.subrange(j as int, j as int + (t + 1) as int) =~= v@.subrange(
                j as int,
                j as int + t as int,
            ).push(v@[j as int + t as int]));
        }
        t = t + 1;
    }
    let s = string_from_chars(&cs);
    Some((s, j + m))
}

/// Reads a provider kind at `i`.
fn decode_kind_at(v: &Vec<char>, i: usize) -> (r: Option<(OAuthProviderType, usize)>)
    requires
        i <= v@.len(),
    ensures
        match r {
            Option::Some((k, j)) => dec_kind(v@, i as int) == Option::Some((k@, j as int)) && i <= j
                <= v@.len(),
            Option::None => dec_kind(v@, i as int) is None,
        },
{
    if i >= v.len() {
        return None;
    }
    let c = v[i];
    if c == 'M' {
        Some((OAuthProviderType::Microsoft, i + 1))
    } else if c == 'B' {
        match decode_lstr_at(v, i + 1) {
            Some((u, j)) => Some((OAuthProviderType::BlessingSkin(u), j)),
            None => None,
        }
    } else {
        None
    }
}

/// Reads one property at `i`.
fn decode_pair_at(v: &Vec<char>, i: usize) -> (r: Option<(YggdrasilKVPair, usize)>)
    requires
        i <= v@.len(),
    ensures
        match r {
            Option::Some((p, j)) => dec_pair(v@, i as int) == Option::Some((p@, j as int)) && i <= j
                <= v@.len(),
            Option::None => dec_pair(v@, i as int) is None,
        },
{
    let (name, j) = match decode_lstr_at(v, i) {
        Some(p) => p,
        None => {
            return None;
        },
    };
    let (value, k) = match decode_lstr_at(v, j) {
        Some(p) => p,
        None => {
            return None;
        },
    };
    Some((YggdrasilKVPair { name, value }, k))
}

/// Reads a property list at `i`.
fn decode_pairs_at(v: &Vec<char>, i: usize) -> (r: Option<(Vec<YggdrasilKVPair>, usize)>)
    requires
        i <= v@.len(),
    ensures
        match r {
            Option::Some((ps, j)) => dec_pairs(v@, i as int) == Option::Some(
                (pair_views(ps@), j as int),
            ) && i <= j <= v@.len(),
            Option::None => dec_pairs(v@, i as int) is None,
        },
{
    let (n, j0) = match decode_u64_at(v, i) {
        Some(p) => p,
        None => {
            return None;
        },
    };
    let mut acc: Vec<YggdrasilKVPair> = Vec::new();
    let mut cur: usize = j0;
    let mut t: u64 = 0;
    while t < n
        invariant
            t <= n,
            i <= cur <= v@.len(),
            dec_u64(v@, i as int) == Option::Some((n, j0 as int)),
            dec_pairs_items(v@, j0 as int, n as nat) == (match dec_pairs_items(
                v@,
                cur as int,
                (n - t) as nat,
            ) {
                Option::None => Option::<(Seq<KVPairView>, int)>::None,
                Option::Some((xs, k)) => Option::Some((pair_views(acc@) + xs, k)),
            }),
        decreases n - t,
    {
        match decode_pair_at(v, cur) {
            Some((p, j2)) => {
                proof {
                    let rem = (n - t) as nat;
                    assert(dec_pairs_items(v@, cur as int, rem) == (match dec_pairs_items(
                        v@,
                        j2 as int,
                        (rem - 1) as nat,
                    ) {
                        Option::None => Option::<(Seq<KVPairView>, int)>::None,
                        Option::Some((xs, k)) => Option::Some((seq![p@] + xs, k)),
                    }));
                    assert(pair_views(acc@.push(p)) =~= pair_views(acc@) + seq![p@]);
                    if dec_pairs_items(v@, j2 as int, (rem - 1) as nat) is Some {
                        let (xs, k) = dec_pairs_items(v@, j2 as int, (rem - 1) as nat)->Some_0;
                        assert(pair_views(acc@) + (seq![p@] + xs) =~= (pair_views(acc@) + seq![p@])
                            + xs);
                    }
                }
                acc.push(p);
                cur = j2;
                t = t + 1;
            },
            None => {
                return None;
            },
        }
    }
    proof {
        assert(pair_views(acc@) + Seq::<KVPairView>::empty() =~= pair_views(acc@));
    }
    Some((acc, cur))
}

/// Reads one profile at `i`.
fn decode_profile_at(v: &Vec<char>, i: usize) -> (r: Option<(YggdrasilProfile, usize)>)
    requires
        i <= v@.len(),
    ensures
        match r {
            Option::Some((p, j)) => dec_profile(v@, i as int) == Option::Some((p@, j as int)) && i
                <= j <= v@.len(),
            Option::None => dec_profile(v@, i as int) is None,
        },
{
    let (id, j) = match decode_lstr_at(v, i) {
        Some(p) => p,
        None => {
            return None;
        },
    };
    let (name, k) = match decode_lstr_at(v, j) {
        Some(p) => p,
        None => {
            return None;
        },
    };
    let (properties, l) = match decode_pairs_at(v, k) {
        Some(p) => p,
        None => {
            return None;
        },
    };
    let out = YggdrasilProfile { id, name, properties };
    proof {
        assert(out@.properties =~= pair_views(out.properties@));
    }
    Some((out, l))
}

/// Reads a profile list at `i`.
fn decode_profiles_at(v: &Vec<char>, i: usize) -> (r: Option<(Vec<YggdrasilProfile>, usize)>)
    requires
        i <= v@.len(),
    ensures
        match r {
            Option::Some((ps, j)) => dec_profiles(v@, i as int) == Option::Some(
                (profile_views(ps@), j as int),
            ) && i <= j <= v@.len(),
            Option::None => dec_profiles(v@, i as int) is None,
        },
{
    let (n, j0) = match decode_u64_at(v, i) {
        Some(p) => p,
        None => {
            return None;
        },
    };
    let mut acc: Vec<YggdrasilProfile> = Vec::new();
    let mut cur: usize = j0;
    let mut t: u64 = 0;
    while t < n
        invariant
            t <= n,
            i <= cur <= v@.len(),
            dec_u64(v@, i as int) == Option::Some((n, j0 as int)),
            dec_profiles_items(v@, j0 as int, n as nat) == (match dec_profiles_items(
                v@,
                cur as int,
                (n - t) as nat,
            ) {
                Option::None => Option::<(Seq<ProfileView>, int)>::None,
                Option::Some((xs, k)) => Option::Some((profile_views(acc@) + xs, k)),
            }),
        decreases n - t,
    {
        match decode_profile_at(v, cur) {
            Some((p, j2)) => {
                proof {
                    let rem = (n - t) as nat;
                    assert(dec_profiles_items(v@, cur as int, rem) == (match dec_profiles_items(
                        v@,
                        j2 as int,
                        (rem - 1) as nat,
                    ) {
                        Option::None => Option::<(Seq<ProfileView>, int)>::None,
                        Option::Some((xs, k)) => Option::Some((seq![p@] + xs, k)),
                    }));
                    assert(profile_views(acc@.push(p)) =~= profile_views(acc@) + seq![p@]);
                    if dec_profiles_items(v@, j2 as int, (rem - 1) as nat) is Some {
                        let (xs, k) = dec_profiles_items(v@, j2 as int, (rem - 1) as nat)->Some_0;
                        assert(profile_views(acc@) + (seq![p@] + xs) =~= (profile_views(acc@)
                            + seq![p@]) + xs);
                    }
                }
                acc.push(p);
                cur = j2;
                t = t + 1;
            },
            None => {
                return None;
            },
        }
    }
    proof {
        assert(profile_views(acc@) + Seq::<ProfileView>::empty() =~= profile_views(acc@));
    }
    Some((acc, cur))
}

/// Reads a normalized identity at `i`.
fn decode_user_at(v: &Vec<char>, i: usize) -> (r: Option<(UnifiedUserInfo, usize)>)
    requires
        i <= v@.len(),
    ensures
        match r {
            Option::Some((u, j)) => dec_user(v@, i as int) == Option::Some((u@, j as int)) && i <= j
                <= v@.len(),
            Option::None => dec_user(v@, i as int) is None,
        },
{
    let (uid, i1) = match decode_lstr_at(v, i) {
        Some(p) => p,
        None => {
            return None;
        },
    };
    let (nickname, i2) = match decode_lstr_at(v, i1) {
        Some(p) => p,
        None => {
            return None;
        },
    };
    let (email, i3) = match decode_lstr_at(v, i2) {
        Some(p) => p,
        None => {
            return None;
        },
    };
    let (provider, i4) = match decode_lstr_at(v, i3) {
        Some(p) => p,
        None => {
            return None;
        },
    };
    let (provider_type, i5) = match decode_kind_at(v, i4) {
        Some(p) => p,
        None => {
            return None;
        },
    };
    let (profiles, i6) = match decode_profiles_at(v, i5) {
        Some(p) => p,
        None => {
            return None;
        },
    };
    let out = UnifiedUserInfo { uid, nickname, email, provider, provider_type, profiles };
    proof {
        assert(out@.profiles =~= profile_views(out.profiles@));
    }
    Some((out, i6))
}

/// Reads a session credential at `i`.
fn decode_token_at(v: &Vec<char>, i: usize) -> (r: Option<(TokenInformation, usize)>)
    requires
        i <= v@.len(),
    ensures
        match r {
            Option::Some((t, j)) => dec_token(v@, i as int) == Option::Some((t@, j as int)) && i
                <= j <= v@.len(),
            Option::None => dec_token(v@, i as int) is None,
        },
{
    let (access_token, i1) = match decode_lstr_at(v, i) {
        Some(p) => p,
        None => {
            return None;
        },
    };
    let (provider_name, i2) = match decode_lstr_at(v, i1) {
        Some(p) => p,
        None => {
            return None;
        },
    };
    let (expire_date, i3) = match decode_u64_at(v, i2) {
        Some(p) => p,
        None => {
            return None;
        },
    };
    let (user_info, i4) = match decode_user_at(v, i3) {
        Some(p) => p,
        None => {
            return None;
        },
    };
    Some((TokenInformation { access_token, provider_name, expire_date, user_info }, i4))
}

/// Reads a verified token payload back into a session credential. Returns
/// `None` exactly when the payload is not one credential's wire form with
/// nothing trailing.
pub fn decode_credential(payload: &str) -> (r: Option<TokenInformation>)
    ensures
        match r {
            Option::Some(t) => credential_of(payload@) == Option::Some(t@),
            Option::None => credential_of(payload@) is None,
        },
{
    let v = chars_of_str(payload);
    match decode_token_at(&v, 0) {
        Some((t, j)) => {
            if j == v.len() {
                Some(t)
            } else {
                None
            }
        },
        None => None,
    }
}

} // verus!
