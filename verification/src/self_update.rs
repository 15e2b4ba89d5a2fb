//! Whether a later release of the program exists, and where it lies.
use vstd::prelude::*;

verus! {

/// The order of texts: character by character, the first difference
/// decides, and a text comes before each of its extensions.
pub open spec fn text_le(a: Seq<char>, b: Seq<char>) -> bool
    decreases a.len(),
{
    if a.len() == 0 {
        true
    } else if b.len() == 0 {
        false
    } else if a[0] != b[0] {
        (a[0] as u32) < (b[0] as u32)
    } else {
        text_le(a.drop_first(), b.drop_first())
    }
}

/// Of two texts one comes before the other, or they are the same.
pub proof fn lemma_text_le_total(a: Seq<char>, b: Seq<char>)
    ensures
        text_le(a, b) || text_le(b, a),
    decreases a.len(),
{
    if a.len() > 0 && b.len() > 0 {
        if a[0] == b[0] {
            lemma_text_le_total(a.drop_first(), b.drop_first());
        } else {
            vstd::utf8::char_u32_cast(a[0], a[0] as u32);
            vstd::utf8::char_u32_cast(b[0], b[0] as u32);
        }
    }
}

/// The order of texts is transitive.
pub proof fn lemma_text_le_transitive(a: Seq<char>, b: Seq<char>, c: Seq<char>)
    requires
        text_le(a, b),
        text_le(b, c),
    ensures
        text_le(a, c),
    decreases a.len(),
{
    if a.len() > 0 && a[0] == b[0] && b[0] == c[0] {
        lemma_text_le_transitive(a.drop_first(), b.drop_first(), c.drop_first());
    }
}

/// Texts that come before each other are the same.
pub proof fn lemma_text_le_antisymmetric(a: Seq<char>, b: Seq<char>)
    requires
        text_le(a, b),
        text_le(b, a),
    ensures
        a == b,
    decreases a.len(),
{
    if a.len() > 0 {
        lemma_text_le_antisymmetric(a.drop_first(), b.drop_first());
        assert(a =~= seq![a[0]] + a.drop_first());
        assert(b =~= seq![b[0]] + b.drop_first());
    } else {
        assert(a =~= b);
    }
}

/// Two texts that agree up to `at` are ordered as what follows `at` in them.
proof fn lemma_text_le_skip(a: Seq<char>, b: Seq<char>, at: int)
    requires
        0 <= at <= a.len(),
        at <= b.len(),
        a.take(at) == b.take(at),
    ensures
        text_le(a, b) == text_le(a.skip(at), b.skip(at)),
    decreases at,
{
    if at == 0 {
        assert(a.skip(0) =~= a);
        assert(b.skip(0) =~= b);
    } else {
        assert(a[0] == a.take(at)[0]);
        assert(b[0] == b.take(at)[0]);
        assert(a.drop_first().take(at - 1) =~= a.take(at).drop_first());
        assert(b.drop_first().take(at - 1) =~= b.take(at).drop_first());
        lemma_text_le_skip(a.drop_first(), b.drop_first(), at - 1);
        assert(a.drop_first().skip(at - 1) =~= a.skip(at));
        assert(b.drop_first().skip(at - 1) =~= b.skip(at));
    }
}

/// Whether `a` comes before `b` in the order of texts, or is the same.
pub fn not_later(a: &str, b: &str) -> (le: bool)
    ensures
        le == text_le(a@, b@),
{
    let n: usize = a.unicode_len();
    let m: usize = b.unicode_len();
    let mut i: usize = 0;
    while i < n && i < m
        invariant
            n == a@.len(),
            m == b@.len(),
            i <= n,
            i <= m,
            a@.take(i as int) == b@.take(i as int),
        decreases n - i,
    {
        let x: char = a.get_char(i);
        let y: char = b.get_char(i);
        if x != y {
            proof {
                lemma_text_le_skip(a@, b@, i as int);
            }
            return x < y;
        }
        proof {
            assert(a@.take(i + 1) =~= a@.take(i as int).push(x));
            assert(b@.take(i + 1) =~= b@.take(i as int).push(y));
        }
        i = i + 1;
    }
    proof {
        lemma_text_le_skip(a@, b@, i as int);
    }
    i == n
}

/// The text is the latest of the list: it is in the list, and none of the
/// list comes after it.
pub open spec fn is_latest(versions: Seq<String>, latest: Seq<char>) -> bool {
    &&& exists|i: int| 0 <= i < versions.len() && (#[trigger] versions[i])@ == latest
    &&& forall|i: int| 0 <= i < versions.len() ==> text_le((#[trigger] versions[i])@, latest)
}

/// The latest release of a list that holds one: the last in the order of
/// texts.
pub fn latest_release(versions: &Vec<String>) -> (latest: &String)
    requires
        versions.len() > 0,
    ensures
        is_latest(versions@, latest@),
{
    let mut best: usize = 0;
    let mut i: usize = 1;
    proof {
        lemma_text_le_total(versions[0]@, versions[0]@);
    }
    while i < versions.len()
        invariant
            1 <= i <= versions.len(),
            best < i,
            forall|j: int| 0 <= j < i ==> text_le((#[trigger] versions[j])@, versions[best as int]@),
        decreases versions.len() - i,
    {
        if not_later(versions[best].as_str(), versions[i].as_str()) {
            proof {
                assert forall|j: int| 0 <= j <= i implies text_le(
                    (#[trigger] versions[j])@,
                    versions[i as int]@,
                ) by {
                    if j < i {
                        lemma_text_le_transitive(
                            versions[j]@,
                            versions[best as int]@,
                            versions[i as int]@,
                        );
                    } else {
                        lemma_text_le_total(versions[i as int]@, versions[i as int]@);
                    }
                }
            }
            best = i;
        } else {
            proof {
                lemma_text_le_total(versions[best as int]@, versions[i as int]@);
            }
        }
        i = i + 1;
    }
    &versions[best]
}

/// Whether the program is to be replaced: the latest release comes after
/// the local version.
pub fn needs_update(latest: &str, local: &str) -> (update: bool)
    ensures
        update == !text_le(latest@, local@),
{
    !not_later(latest, local)
}

/// Root of the store that holds the releases.
pub const UPDATE_URL: &'static str = "https://cdn.jsdelivr.net/gh/zkonge/mirua-update";

/// The address of a release for an operating system and an architecture:
/// `{root}/v{version}/mirua_{os}_{arch}`.
pub open spec fn release_url(version: Seq<char>, os: Seq<char>, arch: Seq<char>) -> Seq<char> {
    UPDATE_URL@ + "/v"@ + version + "/mirua_"@ + os + "_"@ + arch
}

/// Builds the address of a release for an operating system and an
/// architecture.
pub fn build_release_url(version: &str, os: &str, arch: &str) -> (url: String)
    ensures
        url@ == release_url(version@, os@, arch@),
{
    let mut url: String = String::from_str(UPDATE_URL);
    url.append("/v");
    url.append(version);
    url.append("/mirua_");
    url.append(os);
    url.append("_");
    url.append(arch);
    url
}

} // verus!
