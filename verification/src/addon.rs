//! The add-on registry: official add-ons and placeholders for external ones.
use vstd::prelude::*;
use crate::text::{decimal, decimal_chars, push_chars, push_str, string_from_chars};

verus! {

/// The add-on API version that this build provides.
pub const ADDON_API_VERSION: u32 = 1;

/// Where an add-on comes from.
#[derive(Debug, Clone, Copy, PartialEq, Eq, Structural)]
pub enum AddonOrigin {
    Official,
    External,
}

/// What the registry knows of one add-on.
#[derive(Debug, Clone)]
pub struct AddonManifest {
    pub id: String,
    pub name: String,
    pub version: String,
    pub required_api: u32,
    pub origin: AddonOrigin,
    pub enabled: bool,
    pub path: Option<String>,
}

impl AddonManifest {
    /// Whether the add-on asks for exactly this build's API version.
    pub fn is_compatible(&self) -> (b: bool)
        ensures
            b == (self.required_api == ADDON_API_VERSION),
    {
        self.required_api == ADDON_API_VERSION
    }

    /// "互換" for a compatible add-on, "API不一致" otherwise.
    pub fn compatibility_label(&self) -> (s: &'static str)
        ensures
            s@ == if self.required_api == ADDON_API_VERSION {
                "互換"@
            } else {
                "API不一致"@
            },
    {
        if self.is_compatible() {
            "互換"
        } else {
            "API不一致"
        }
    }
}

/// The file name of a path (what `Path::file_name` returns), as text.
pub uninterp spec fn file_name_of(path: Seq<char>) -> Option<Seq<char>>;

/// Trusted: calls `Path::new(path).file_name()` and converts the result with
/// `OsStr::to_str`. std documents `file_name` as the final component of the
/// path when it is a normal file or directory name, and `None` when the path
/// ends in `..` or is a root; the result is named, not spelt out. `to_str`
/// cannot fail on a name taken from a `&str`.
#[verifier::external_body]
pub(crate) fn path_file_name(path: &str) -> (name: Option<String>)
    ensures
        match name {
            Some(n) => file_name_of(path@) == Some(n@),
            None => file_name_of(path@) is None,
        },
{
    std::path::Path::new(path).file_name().and_then(|n| n.to_str()).map(|n| n.to_owned())
}

/// How many add-ons in `addons` have the given origin.
pub open spec fn count_origin(addons: Seq<AddonManifest>, origin: AddonOrigin) -> nat
    decreases addons.len(),
{
    if addons.len() == 0 {
        0
    } else {
        count_origin(addons.drop_last(), origin) + if addons.last().origin == origin {
            1nat
        } else {
            0nat
        }
    }
}

proof fn lemma_count_origin_bound(addons: Seq<AddonManifest>, origin: AddonOrigin)
    ensures
        count_origin(addons, origin) <= addons.len(),
    decreases addons.len(),
{
    if addons.len() > 0 {
        lemma_count_origin_bound(addons.drop_last(), origin);
    }
}

/// The official add-ons shipped with this build, both disabled.
pub open spec fn official_addons(addons: Seq<AddonManifest>) -> bool {
    &&& addons.len() == 2
    &&& addons[0].id@ == "official.performance_details"@
    &&& addons[0].name@ == "詳細パフォーマンス表示"@
    &&& addons[1].id@ == "official.test_overlay"@
    &&& addons[1].name@ == "テストオーバーレイ拡張"@
    &&& forall|i: int|
        0 <= i < 2 ==> {
            &&& (#[trigger] addons[i]).version@ == "0.1.0"@
            &&& addons[i].required_api == ADDON_API_VERSION
            &&& addons[i].origin == AddonOrigin::Official
            &&& !addons[i].enabled
            &&& addons[i].path is None
        }
}

/// The add-ons known to the application.
#[derive(Debug)]
pub struct AddonRegistry {
    addons: Vec<AddonManifest>,
}

impl Default for AddonRegistry {
    /// A registry with no add-on.
    fn default() -> (r: Self)
        ensures
            r@.len() == 0,
    {
        AddonRegistry { addons: Vec::new() }
    }
}

impl View for AddonRegistry {
    type V = Seq<AddonManifest>;

    /// The add-ons, in registration order.
    closed spec fn view(&self) -> Seq<AddonManifest> {
        self.addons@
    }
}

fn official(id: &str, name: &str) -> (m: AddonManifest)
    ensures
        m.id@ == id@,
        m.name@ == name@,
        m.version@ == "0.1.0"@,
        m.required_api == ADDON_API_VERSION,
        m.origin == AddonOrigin::Official,
        !m.enabled,
        m.path is None,
{
    AddonManifest {
        id: String::from_str(id),
        name: String::from_str(name),
        version: String::from_str("0.1.0"),
        required_api: ADDON_API_VERSION,
        origin: AddonOrigin::Official,
        enabled: false,
        path: None,
    }
}

impl AddonRegistry {
    /// A registry holding the official add-ons.
    pub fn new() -> (r: Self)
        ensures
            official_addons(r@),
    {
        let mut registry = AddonRegistry::default();
        registry.addons.push(official("official.performance_details", "詳細パフォーマンス表示"));
        registry.addons.push(official("official.test_overlay", "テストオーバーレイ拡張"));
        registry
    }

    /// The add-ons, in registration order.
    pub fn addons(&self) -> (a: &[AddonManifest])
        ensures
            a@ == self@,
    {
        self.addons.as_slice()
    }

    /// The add-ons, for the settings screen to switch them on and off.
    pub fn addons_mut(&mut self) -> (a: &mut [AddonManifest])
        ensures
            a@ == old(self)@,
            final(self)@ == final(a)@,
    {
        self.addons.as_mut_slice()
    }

    /// Registers an external add-on file as a placeholder: id `external.<count>`,
    /// named after the file, not yet loaded and disabled.
    pub fn register_external_placeholder(&mut self, path: String)
        ensures
            final(self)@.len() == old(self)@.len() + 1,
            final(self)@.subrange(0, old(self)@.len() as int) == old(self)@,
            ({
                let m = final(self)@.last();
                &&& m.id@ == "external."@ + decimal(old(self)@.len())
                &&& m.name@ == match file_name_of(path@) {
                    Some(n) => n,
                    None => "外部アドオン"@,
                }
                &&& m.version@ == "未読込"@
                &&& m.required_api == ADDON_API_VERSION
                &&& m.origin == AddonOrigin::External
                &&& !m.enabled
                &&& m.path == Some(path)
            }),
    {
        let display_name = match path_file_name(path.as_str()) {
            Some(n) => n,
            None => String::from_str("外部アドオン"),
        };
        let mut id: Vec<char> = Vec::new();
        push_str(&mut id, "external.");
        let digits = decimal_chars(self.addons.len() as u64);
        push_chars(&mut id, digits.as_slice());
        let ghost before = self.addons@;
        self.addons.push(
            AddonManifest {
                id: string_from_chars(id.as_slice()),
                name: display_name,
                version: String::from_str("未読込"),
                required_api: ADDON_API_VERSION,
                origin: AddonOrigin::External,
                enabled: false,
                path: Some(path),
            },
        );
        assert(self.addons@.subrange(0, before.len() as int) =~= before);
    }

    fn count(&self, origin: AddonOrigin) -> (n: usize)
        ensures
            n == count_origin(self@, origin),
    {
        let mut n: usize = 0;
        let mut i: usize = 0;
        while i < self.addons.len()
            invariant
                i <= self.addons.len(),
                n == count_origin(self.addons@.take(i as int), origin),
                n <= i,
            decreases self.addons.len() - i,
        {
            proof {
                assert(self.addons@.take(i + 1).drop_last() =~= self.addons@.take(i as int));
            }
            if self.addons[i].origin == origin {
                n = n + 1;
            }
            i = i + 1;
        }
        assert(self.addons@.take(i as int) =~= self.addons@);
        n
    }

    /// How many official add-ons are registered.
    pub fn official_count(&self) -> (n: usize)
        ensures
            n == count_origin(self@, AddonOrigin::Official),
    {
        self.count(AddonOrigin::Official)
    }

    /// How many external add-ons are registered.
    pub fn external_count(&self) -> (n: usize)
        ensures
            n == count_origin(self@, AddonOrigin::External),
    {
        self.count(AddonOrigin::External)
    }
}

/// Registering a placeholder adds one external add-on and leaves the official count as it was.
pub proof fn lemma_placeholder_counts(before: Seq<AddonManifest>, m: AddonManifest)
    requires
        m.origin == AddonOrigin::External,
    ensures
        count_origin(before.push(m), AddonOrigin::External) == count_origin(before, AddonOrigin::External) + 1,
        count_origin(before.push(m), AddonOrigin::Official) == count_origin(before, AddonOrigin::Official),
{
    assert(before.push(m).drop_last() =~= before);
}

} // verus!
