//! Audio casting: one broadcast medium for all three adapter selectors.
//!
//! The device identity the phone sees is the MAC of whichever adapter passes
//! the check `IfType == IF_TYPE_IEEE80211 (0x47, Wi-Fi)`. That check appears in
//! three places: once in `MiPCAudio.exe` (Lyra `GetMacIp`) and twice in
//! `idmruntime.dll` (IDM). Patching only one of them splits the identity and
//! the phone lists the PC twice, so all three are set to the same medium:
//! `0x47` for Wi-Fi (factory state) or `0x06` for wired Ethernet.
//!
//! Each place is found by its instruction bytes (prefix, the value byte and
//! the following conditional jump), never by a fixed offset.

use vstd::prelude::*;
use vstd::string::StringExecFns;
use crate::infra::bytes::{
    disjoint_from, lemma_value_sites_stable, locate_single_byte, spec_locate, unique_value_site, value_site,
    LocateError,
};

verus! {

pub const TARGET_MIPCAUDIO: &'static str = "MiPCAudio.exe";
pub const TARGET_IDMRUNTIME: &'static str = "idmruntime.dll";

/// IF_TYPE_IEEE80211: wireless.
pub const IFTYPE_WIFI: u8 = 0x47;
/// IF_TYPE_ETHERNET_CSMACD: wired.
pub const IFTYPE_ETHERNET: u8 = 0x06;

/// The medium the PC announces itself on.
#[derive(Clone, Copy, PartialEq, Eq, Debug)]
pub enum BroadcastMode {
    Wireless,
    Wired,
}

impl BroadcastMode {
    pub open spec fn spec_iftype(self) -> u8 {
        match self {
            BroadcastMode::Wireless => IFTYPE_WIFI,
            BroadcastMode::Wired => IFTYPE_ETHERNET,
        }
    }

    /// The IfType value the selectors compare against in this mode.
    pub fn iftype(self) -> (r: u8)
        ensures
            r == self.spec_iftype(),
    {
        match self {
            BroadcastMode::Wireless => IFTYPE_WIFI,
            BroadcastMode::Wired => IFTYPE_ETHERNET,
        }
    }

    /// The user-facing name of the mode.
    pub fn label(self) -> (r: &'static str)
        ensures
            r@ == (match self {
                BroadcastMode::Wireless => "无线 (WiFi)"@,
                BroadcastMode::Wired => "有线 (LAN)"@,
            }),
    {
        match self {
            BroadcastMode::Wireless => "无线 (WiFi)",
            BroadcastMode::Wired => "有线 (LAN)",
        }
    }
}

/// The values an IfType selector can hold.
pub open spec fn iftype_candidates() -> Seq<u8> {
    seq![IFTYPE_WIFI, IFTYPE_ETHERNET]
}

/// One selector: `prefix ++ [value] ++ suffix`, where `value` is rewritten.
pub struct Site {
    pub prefix: Vec<u8>,
    pub suffix: Vec<u8>,
}

/// The mathematical content of a selector.
pub struct SiteModel {
    pub prefix: Seq<u8>,
    pub suffix: Seq<u8>,
}

impl Site {
    pub open spec fn model(&self) -> SiteModel {
        SiteModel { prefix: self.prefix@, suffix: self.suffix@ }
    }
}

/// The models of a list of selectors.
pub open spec fn site_models(sites: Seq<Site>) -> Seq<SiteModel> {
    sites.map_values(|s: Site| s.model())
}

/// The selector in `MiPCAudio.exe`: `cmp dword [r9+0x64], <v>; jne short`.
pub open spec fn mipcaudio_sites() -> Seq<SiteModel> {
    seq![SiteModel { prefix: seq![0x41u8, 0x83, 0x79, 0x64], suffix: seq![0x75u8] }]
}

/// The selectors in `idmruntime.dll`: `cmp dword [r14+0x64], <v>; jne near`
/// and `cmp dword [rbx+0x64], <v>; jne short`.
pub open spec fn idmruntime_sites() -> Seq<SiteModel> {
    seq![
        SiteModel { prefix: seq![0x41u8, 0x83, 0x7e, 0x64], suffix: seq![0x0Fu8, 0x85] },
        SiteModel { prefix: seq![0x83u8, 0x7b, 0x64], suffix: seq![0x75u8] },
    ]
}

/// The selectors of `MiPCAudio.exe`.
pub fn mipcaudio_site_list() -> (r: Vec<Site>)
    ensures
        r@.len() == mipcaudio_sites().len(),
        forall|i: int| 0 <= i < r@.len() ==> #[trigger] r@[i].model() == mipcaudio_sites()[i],
{
    let mut r: Vec<Site> = Vec::new();
    r.push(Site { prefix: vec![0x41u8, 0x83, 0x79, 0x64], suffix: vec![0x75u8] });
    proof {
        assert(r@[0].prefix@ =~= mipcaudio_sites()[0].prefix);
        assert(r@[0].suffix@ =~= mipcaudio_sites()[0].suffix);
    }
    r
}

/// The selectors of `idmruntime.dll`.
pub fn idmruntime_site_list() -> (r: Vec<Site>)
    ensures
        r@.len() == idmruntime_sites().len(),
        forall|i: int| 0 <= i < r@.len() ==> #[trigger] r@[i].model() == idmruntime_sites()[i],
{
    let mut r: Vec<Site> = Vec::new();
    r.push(Site { prefix: vec![0x41u8, 0x83, 0x7e, 0x64], suffix: vec![0x0Fu8, 0x85] });
    r.push(Site { prefix: vec![0x83u8, 0x7b, 0x64], suffix: vec![0x75u8] });
    proof {
        assert(r@[0].prefix@ =~= idmruntime_sites()[0].prefix);
        assert(r@[0].suffix@ =~= idmruntime_sites()[0].suffix);
        assert(r@[1].prefix@ =~= idmruntime_sites()[1].prefix);
        assert(r@[1].suffix@ =~= idmruntime_sites()[1].suffix);
    }
    r
}

/// What patching a file did.
#[derive(Debug, Clone, Copy, PartialEq, Eq)]
pub struct FileOutcome {
    /// Selectors rewritten.
    pub patched: usize,
    /// Selectors that already held the target value.
    pub already: usize,
}

/// The buffer and counts after setting every selector in `sites` to `target`,
/// one after the other, or the first locating error.
pub open spec fn spec_patch_sites(d: Seq<u8>, sites: Seq<SiteModel>, target: u8) -> Result<(Seq<u8>, int, int), LocateError>
    decreases sites.len(),
{
    if sites.len() == 0 {
        Ok((d, 0, 0))
    } else {
        match spec_locate(d, sites[0].prefix, sites[0].suffix, iftype_candidates()) {
            Err(e) => Err(e),
            Ok(v) => {
                let same = d[v] == target;
                let d1 = if same { d } else { d.update(v, target) };
                match spec_patch_sites(d1, sites.drop_first(), target) {
                    Err(e) => Err(e),
                    Ok((d2, p, a)) => Ok((d2, p + (if same { 0int } else { 1 }), a + (if same { 1int } else { 0 }))),
                }
            },
        }
    }
}

/// Sets every selector in `sites` to the mode's IfType, in order.
///
/// The first selector that cannot be located uniquely aborts with its error;
/// the caller then writes nothing back.
pub fn patch_file(data: &mut Vec<u8>, sites: &Vec<Site>, mode: BroadcastMode) -> (res: Result<FileOutcome, LocateError>)
    requires
        forall|i: int| 0 <= i < sites@.len() ==> (#[trigger] sites@[i]).prefix@.len() + 1 + sites@[i].suffix@.len() <= usize::MAX,
    ensures
        match spec_patch_sites(old(data)@, site_models(sites@), mode.spec_iftype()) {
            Ok((d, p, a)) => final(data)@ == d && res == Ok::<FileOutcome, LocateError>(FileOutcome { patched: p as usize, already: a as usize }),
            Err(e) => res == Err::<FileOutcome, LocateError>(e),
        },
{
    let target = mode.iftype();
    let candidates: Vec<u8> = vec![IFTYPE_WIFI, IFTYPE_ETHERNET];
    assert(candidates@ =~= iftype_candidates());
    let ghost models = site_models(sites@);
    let ghost d0 = data@;
    let mut outcome = FileOutcome { patched: 0, already: 0 };
    let mut i: usize = 0;
    assert(models.skip(0) =~= models);
    while i < sites.len()
        invariant
            models == site_models(sites@),
            d0 == old(data)@,
            candidates@ == iftype_candidates(),
            target == mode.spec_iftype(),
            i <= sites@.len(),
            outcome.patched + outcome.already == i,
            forall|j: int| 0 <= j < sites@.len() ==> (#[trigger] sites@[j]).prefix@.len() + 1 + sites@[j].suffix@.len() <= usize::MAX,
            spec_patch_sites(d0, models, target) == match spec_patch_sites(data@, models.skip(i as int), target) {
                Ok((d, p, a)) => Ok((d, p + outcome.patched, a + outcome.already)),
                Err(e) => Err(e),
            },
        decreases sites@.len() - i,
    {
        let site = &sites[i];
        assert(models.skip(i as int)[0] == site.model());
        assert(models.skip(i as int).drop_first() =~= models.skip(i + 1));
        let ghost rest = models.skip(i as int);
        let ghost before = data@;
        let vi = match locate_single_byte(data.as_slice(), site.prefix.as_slice(), site.suffix.as_slice(), candidates.as_slice()) {
            Ok(v) => v,
            Err(e) => {
                assert(spec_patch_sites(before, rest, target) == Err::<(Seq<u8>, int, int), LocateError>(e));
                assert(spec_patch_sites(d0, models, target) == Err::<(Seq<u8>, int, int), LocateError>(e));
                return Err(e);
            },
        };
        if data[vi] == target {
            outcome.already = outcome.already + 1;
        } else {
            data.set(vi, target);
            outcome.patched = outcome.patched + 1;
        }
        assert(data@ =~= (if before[vi as int] == target { before } else { before.update(vi as int, target) }));
        i = i + 1;
    }
    assert(models.skip(sites@.len() as int) =~= Seq::<SiteModel>::empty());
    Ok(outcome)
}

/// Which file a selector could not be located in.
#[derive(Debug, Clone, Copy, PartialEq, Eq)]
pub enum AudioPatchError {
    MiPcAudio(LocateError),
    IdmRuntime(LocateError),
}

/// Sets the three selectors of `MiPCAudio.exe` and `idmruntime.dll` to the
/// mode's medium and reports, per file in name order, how many were rewritten.
///
/// `MiPCAudio.exe` is handled first; an error in it leaves `idmruntime.dll` untouched.
pub fn apply(
    mipcaudio: &mut Vec<u8>,
    idmruntime: &mut Vec<u8>,
    mode: BroadcastMode,
) -> (res: Result<(FileOutcome, FileOutcome), AudioPatchError>)
    ensures
        match spec_patch_sites(old(mipcaudio)@, mipcaudio_sites(), mode.spec_iftype()) {
            Err(e) => res == Err::<(FileOutcome, FileOutcome), AudioPatchError>(AudioPatchError::MiPcAudio(e))
                && final(idmruntime)@ == old(idmruntime)@,
            Ok((d1, p1, a1)) => {
                &&& final(mipcaudio)@ == d1
                &&& match spec_patch_sites(old(idmruntime)@, idmruntime_sites(), mode.spec_iftype()) {
                    Err(e) => res == Err::<(FileOutcome, FileOutcome), AudioPatchError>(AudioPatchError::IdmRuntime(e)),
                    Ok((d2, p2, a2)) => final(idmruntime)@ == d2 && res == Ok::<(FileOutcome, FileOutcome), AudioPatchError>((
                        FileOutcome { patched: p1 as usize, already: a1 as usize },
                        FileOutcome { patched: p2 as usize, already: a2 as usize },
                    )),
                }
            },
        },
{
    let ms = mipcaudio_site_list();
    assert(site_models(ms@) =~= mipcaudio_sites());
    let o1 = match patch_file(mipcaudio, &ms, mode) {
        Ok(o) => o,
        Err(e) => return Err(AudioPatchError::MiPcAudio(e)),
    };
    let is = idmruntime_site_list();
    assert(site_models(is@) =~= idmruntime_sites());
    let o2 = match patch_file(idmruntime, &is, mode) {
        Ok(o) => o,
        Err(e) => return Err(AudioPatchError::IdmRuntime(e)),
    };
    Ok((o1, o2))
}

/// The medium a selector currently holds.
pub fn site_state(data: &[u8], site: &Site) -> (res: Result<BroadcastMode, LocateError>)
    requires
        site.prefix@.len() + 1 + site.suffix@.len() <= usize::MAX,
    ensures
        match spec_locate(data@, site.prefix@, site.suffix@, iftype_candidates()) {
            Ok(v) => res == Ok::<BroadcastMode, LocateError>(
                if data@[v] == IFTYPE_WIFI { BroadcastMode::Wireless } else { BroadcastMode::Wired },
            ),
            Err(e) => res == Err::<BroadcastMode, LocateError>(e),
        },
{
    let candidates: Vec<u8> = vec![IFTYPE_WIFI, IFTYPE_ETHERNET];
    assert(candidates@ =~= iftype_candidates());
    let vi = locate_single_byte(data, site.prefix.as_slice(), site.suffix.as_slice(), candidates.as_slice())?;
    if data[vi] == IFTYPE_WIFI {
        Ok(BroadcastMode::Wireless)
    } else {
        Ok(BroadcastMode::Wired)
    }
}

// ---------------------------------------------------------------- laws

/// No prefix or suffix byte of any selector is an IfType candidate, so a
/// rewritten value byte can never take part in another selector's frame.
pub open spec fn sites_disjoint(sites: Seq<SiteModel>) -> bool {
    forall|i: int| 0 <= i < sites.len() ==> disjoint_from(#[trigger] sites[i].prefix, iftype_candidates())
        && disjoint_from(sites[i].suffix, iftype_candidates())
}

/// Every selector is found exactly once.
pub open spec fn sites_located(d: Seq<u8>, sites: Seq<SiteModel>) -> bool {
    forall|i: int| 0 <= i < sites.len() ==> (#[trigger] spec_locate(d, sites[i].prefix, sites[i].suffix, iftype_candidates())) is Ok
}

/// Where a located selector's value byte is.
pub open spec fn site_pos(d: Seq<u8>, s: SiteModel) -> int {
    spec_locate(d, s.prefix, s.suffix, iftype_candidates())->Ok_0
}

/// A frame free of candidate bytes is located at the same place before and after.
pub open spec fn locations_kept(d: Seq<u8>, d2: Seq<u8>) -> bool {
    forall|pre: Seq<u8>, suf: Seq<u8>|
        disjoint_from(pre, iftype_candidates()) && disjoint_from(suf, iftype_candidates())
            ==> #[trigger] spec_locate(d2, pre, suf, iftype_candidates()) == spec_locate(d, pre, suf, iftype_candidates())
}

/// A located value byte is a candidate.
proof fn lemma_located_is_candidate(d: Seq<u8>, s: SiteModel)
    requires
        spec_locate(d, s.prefix, s.suffix, iftype_candidates()) is Ok,
    ensures
        0 <= site_pos(d, s) < d.len(),
        iftype_candidates().contains(d[site_pos(d, s)]),
{
    let v = site_pos(d, s);
    assert(unique_value_site(d, s.prefix, s.suffix, iftype_candidates(), v));
}

/// Rewriting one located value byte with a candidate keeps every location.
proof fn lemma_one_rewrite_keeps_locations(d: Seq<u8>, k: int, t: u8)
    requires
        0 <= k < d.len(),
        iftype_candidates().contains(d[k]),
        iftype_candidates().contains(t),
    ensures
        locations_kept(d, d.update(k, t)),
{
    assert forall|pre: Seq<u8>, suf: Seq<u8>|
        disjoint_from(pre, iftype_candidates()) && disjoint_from(suf, iftype_candidates())
        implies #[trigger] spec_locate(d.update(k, t), pre, suf, iftype_candidates())
            == spec_locate(d, pre, suf, iftype_candidates()) by {
        lemma_value_sites_stable(d, pre, suf, iftype_candidates(), k, t);
    }
}

/// Patching located, candidate-free selectors succeeds, sets each value byte
/// to the target, changes no other byte and moves no location; when every
/// value byte already held the target, nothing changes at all.
pub proof fn lemma_patch_sites_effect(d: Seq<u8>, sites: Seq<SiteModel>, t: u8)
    requires
        iftype_candidates().contains(t),
        sites_disjoint(sites),
        sites_located(d, sites),
    ensures
        spec_patch_sites(d, sites, t) is Ok,
        ({
            let (d2, p, a) = spec_patch_sites(d, sites, t)->Ok_0;
            &&& d2.len() == d.len()
            &&& locations_kept(d, d2)
            &&& forall|i: int| 0 <= i < sites.len() ==> d2[site_pos(d, #[trigger] sites[i])] == t
            &&& forall|k: int| 0 <= k < d.len() && (forall|i: int| 0 <= i < sites.len() ==> k != site_pos(d, #[trigger] sites[i]))
                ==> d2[k] == d[k]
            &&& p + a == sites.len()
            &&& (forall|i: int| 0 <= i < sites.len() ==> d[site_pos(d, #[trigger] sites[i])] == t) ==> (d2 == d && p == 0)
        }),
    decreases sites.len(),
{
    if sites.len() == 0 {
        assert(locations_kept(d, d));
    } else {
        let s0 = sites[0];
        assert(spec_locate(d, sites[0].prefix, sites[0].suffix, iftype_candidates()) is Ok);
        let v = site_pos(d, s0);
        lemma_located_is_candidate(d, s0);
        let d1 = if d[v] == t { d } else { d.update(v, t) };
        lemma_one_rewrite_keeps_locations(d, v, t);
        assert(locations_kept(d, d1)) by {
            if d[v] == t {
                assert(d.update(v, t) =~= d);
            }
        }
        let rest = sites.drop_first();
        assert forall|i: int| 0 <= i < rest.len() implies
            (#[trigger] spec_locate(d1, rest[i].prefix, rest[i].suffix, iftype_candidates())) is Ok by {
            assert(rest[i] == sites[i + 1]);
            assert(spec_locate(d, sites[i + 1].prefix, sites[i + 1].suffix, iftype_candidates()) is Ok);
            assert(disjoint_from(sites[i + 1].prefix, iftype_candidates()));
        }
        assert forall|i: int| 0 <= i < rest.len() implies disjoint_from(#[trigger] rest[i].prefix, iftype_candidates())
            && disjoint_from(rest[i].suffix, iftype_candidates()) by {
            assert(rest[i] == sites[i + 1]);
        }
        lemma_patch_sites_effect(d1, rest, t);
        let (d2, p, a) = spec_patch_sites(d1, rest, t)->Ok_0;
        assert(forall|i: int| 0 <= i < rest.len() ==> site_pos(d1, rest[i]) == site_pos(d, rest[i])) by {
            assert forall|i: int| 0 <= i < rest.len() implies site_pos(d1, #[trigger] rest[i]) == site_pos(d, rest[i]) by {
                assert(rest[i] == sites[i + 1]);
                assert(disjoint_from(sites[i + 1].prefix, iftype_candidates()));
            }
        }
        // Locations of d2 agree with those of d.
        assert forall|pre: Seq<u8>, suf: Seq<u8>|
            disjoint_from(pre, iftype_candidates()) && disjoint_from(suf, iftype_candidates())
            implies #[trigger] spec_locate(d2, pre, suf, iftype_candidates())
                == spec_locate(d, pre, suf, iftype_candidates()) by {
            assert(spec_locate(d2, pre, suf, iftype_candidates()) == spec_locate(d1, pre, suf, iftype_candidates()));
            assert(spec_locate(d1, pre, suf, iftype_candidates()) == spec_locate(d, pre, suf, iftype_candidates()));
        }
        assert forall|i: int| 0 <= i < sites.len() implies d2[site_pos(d, #[trigger] sites[i])] == t by {
            if i == 0 {
                if exists|j: int| 0 <= j < rest.len() && site_pos(d1, #[trigger] rest[j]) == v {
                    let j = choose|j: int| 0 <= j < rest.len() && site_pos(d1, #[trigger] rest[j]) == v;
                    assert(d2[site_pos(d1, rest[j])] == t);
                } else {
                    assert(d2[v] == d1[v]);
                }
            } else {
                assert(sites[i] == rest[i - 1]);
                assert(d2[site_pos(d1, rest[i - 1])] == t);
            }
        }
        assert forall|k: int| 0 <= k < d.len() && (forall|i: int| 0 <= i < sites.len() ==> k != site_pos(d, #[trigger] sites[i]))
            implies d2[k] == d[k] by {
            assert(k != site_pos(d, sites[0]));
            assert forall|j: int| 0 <= j < rest.len() implies k != site_pos(d1, #[trigger] rest[j]) by {
                assert(rest[j] == sites[j + 1]);
            }
        }
        if forall|i: int| 0 <= i < sites.len() ==> d[site_pos(d, #[trigger] sites[i])] == t {
            assert(d[v] == t);
            assert forall|j: int| 0 <= j < rest.len() implies d1[site_pos(d1, #[trigger] rest[j])] == t by {
                assert(rest[j] == sites[j + 1]);
            }
        }
    }
}

/// Every selector of the three holds the mode's value after a successful
/// patch, and patching again with the same mode changes nothing.
pub proof fn lemma_patch_idempotent(d: Seq<u8>, sites: Seq<SiteModel>, mode: BroadcastMode)
    requires
        sites_disjoint(sites),
        sites_located(d, sites),
    ensures
        ({
            let (d2, p, a) = spec_patch_sites(d, sites, mode.spec_iftype())->Ok_0;
            &&& spec_patch_sites(d, sites, mode.spec_iftype()) is Ok
            &&& forall|i: int| 0 <= i < sites.len() ==> d2[site_pos(d2, #[trigger] sites[i])] == mode.spec_iftype()
            &&& spec_patch_sites(d2, sites, mode.spec_iftype()) == Ok::<(Seq<u8>, int, int), LocateError>((d2, 0, sites.len() as int))
        }),
{
    let t = mode.spec_iftype();
    assert(iftype_candidates().contains(t)) by {
        assert(iftype_candidates()[0] == IFTYPE_WIFI);
        assert(iftype_candidates()[1] == IFTYPE_ETHERNET);
    }
    lemma_patch_sites_effect(d, sites, t);
    let (d2, p, a) = spec_patch_sites(d, sites, t)->Ok_0;
    assert forall|i: int| 0 <= i < sites.len() implies site_pos(d2, #[trigger] sites[i]) == site_pos(d, sites[i]) by {
        assert(disjoint_from(sites[i].prefix, iftype_candidates()));
    }
    assert forall|i: int| 0 <= i < sites.len() implies
        (#[trigger] spec_locate(d2, sites[i].prefix, sites[i].suffix, iftype_candidates())) is Ok by {
        assert(disjoint_from(sites[i].prefix, iftype_candidates()));
        assert(spec_locate(d, sites[i].prefix, sites[i].suffix, iftype_candidates()) is Ok);
    }
    lemma_patch_sites_effect(d2, sites, t);
    let (d3, p3, a3) = spec_patch_sites(d2, sites, t)->Ok_0;
    assert(d3 == d2 && p3 == 0);
}

/// Switching modes is reversible: patching Wired and then Wireless leaves the
/// same bytes as patching Wireless directly (and so restores a factory, Wi-Fi
/// file byte for byte).
pub proof fn lemma_mode_switch_reverts(d: Seq<u8>, sites: Seq<SiteModel>)
    requires
        sites_disjoint(sites),
        sites_located(d, sites),
    ensures
        ({
            let wired = spec_patch_sites(d, sites, IFTYPE_ETHERNET)->Ok_0.0;
            &&& spec_patch_sites(wired, sites, IFTYPE_WIFI) is Ok
            &&& spec_patch_sites(wired, sites, IFTYPE_WIFI)->Ok_0.0 == spec_patch_sites(d, sites, IFTYPE_WIFI)->Ok_0.0
        }),
{
    assert(iftype_candidates()[0] == IFTYPE_WIFI);
    assert(iftype_candidates()[1] == IFTYPE_ETHERNET);
    lemma_patch_sites_effect(d, sites, IFTYPE_ETHERNET);
    lemma_patch_sites_effect(d, sites, IFTYPE_WIFI);
    let wired = spec_patch_sites(d, sites, IFTYPE_ETHERNET)->Ok_0.0;
    let direct = spec_patch_sites(d, sites, IFTYPE_WIFI)->Ok_0.0;
    assert forall|i: int| 0 <= i < sites.len() implies site_pos(wired, #[trigger] sites[i]) == site_pos(d, sites[i])
        && (spec_locate(wired, sites[i].prefix, sites[i].suffix, iftype_candidates())) is Ok by {
        assert(disjoint_from(sites[i].prefix, iftype_candidates()));
        assert(spec_locate(d, sites[i].prefix, sites[i].suffix, iftype_candidates()) is Ok);
    }
    lemma_patch_sites_effect(wired, sites, IFTYPE_WIFI);
    let back = spec_patch_sites(wired, sites, IFTYPE_WIFI)->Ok_0.0;
    assert forall|k: int| 0 <= k < d.len() implies back[k] == direct[k] by {
        if exists|i: int| 0 <= i < sites.len() && k == site_pos(d, #[trigger] sites[i]) {
            let i = choose|i: int| 0 <= i < sites.len() && k == site_pos(d, #[trigger] sites[i]);
            assert(back[site_pos(wired, sites[i])] == IFTYPE_WIFI);
            assert(direct[site_pos(d, sites[i])] == IFTYPE_WIFI);
        } else {
            assert forall|i: int| 0 <= i < sites.len() implies k != site_pos(wired, #[trigger] sites[i]) by {}
        }
    }
    assert(back =~= direct);
}

/// The three concrete selectors have candidate-free frames.
pub proof fn lemma_concrete_sites_disjoint()
    ensures
        sites_disjoint(mipcaudio_sites()),
        sites_disjoint(idmruntime_sites()),
{
    let c = iftype_candidates();
    assert(!c.contains(0x41u8) && !c.contains(0x83u8) && !c.contains(0x79u8) && !c.contains(0x64u8)
        && !c.contains(0x75u8) && !c.contains(0x7eu8) && !c.contains(0x0Fu8) && !c.contains(0x85u8)
        && !c.contains(0x7bu8)) by {
        assert forall|b: u8| c.contains(b) implies b == IFTYPE_WIFI || b == IFTYPE_ETHERNET by {
            let j = choose|j: int| 0 <= j < c.len() && c[j] == b;
            assert(j == 0 || j == 1);
        }
    }
    assert forall|i: int| 0 <= i < mipcaudio_sites().len() implies disjoint_from(#[trigger] mipcaudio_sites()[i].prefix, c)
        && disjoint_from(mipcaudio_sites()[i].suffix, c) by {}
    assert forall|i: int| 0 <= i < idmruntime_sites().len() implies disjoint_from(#[trigger] idmruntime_sites()[i].prefix, c)
        && disjoint_from(idmruntime_sites()[i].suffix, c) by {
        if i == 0 {
        } else {
        }
    }
}

// ---------------------------------------------------------------- state view

/// Why a selector could not be located, as the state view words it.
pub open spec fn spec_locate_error_text(e: LocateError) -> Seq<char> {
    match e {
        LocateError::BufferTooSmall => "文件过小"@,
        LocateError::NotUnique => "特征不唯一，疑似版本结构变更，已中止以免误改"@,
        LocateError::NotFound => "未找到 IfType 选择器特征，可能版本结构已变更"@,
    }
}

/// The state of one selector in a file: `None` when the file could not be read.
pub open spec fn spec_site_state_text(data: Option<Seq<u8>>, site: SiteModel) -> Seq<char> {
    match data {
        None => "文件不可读"@,
        Some(d) => match spec_locate(d, site.prefix, site.suffix, iftype_candidates()) {
            Ok(v) => if d[v] == IFTYPE_WIFI { "无线(WiFi)"@ } else { "有线(LAN)"@ },
            Err(e) => "未定位("@ + spec_locate_error_text(e) + ")"@,
        },
    }
}

/// Why a selector could not be located.
pub fn locate_error_text(e: LocateError) -> (r: &'static str)
    ensures
        r@ == spec_locate_error_text(e),
{
    match e {
        LocateError::BufferTooSmall => "文件过小",
        LocateError::NotUnique => "特征不唯一，疑似版本结构变更，已中止以免误改",
        LocateError::NotFound => "未找到 IfType 选择器特征，可能版本结构已变更",
    }
}

fn site_state_text(data: &Option<Vec<u8>>, site: &Site) -> (r: String)
    requires
        site.prefix@.len() + 1 + site.suffix@.len() <= usize::MAX,
    ensures
        r@ == spec_site_state_text(
            match data {
                Some(d) => Some(d@),
                None => None,
            },
            site.model(),
        ),
{
    match data {
        None => String::from_str("文件不可读"),
        Some(d) => match site_state(d.as_slice(), site) {
            Ok(BroadcastMode::Wireless) => String::from_str("无线(WiFi)"),
            Ok(BroadcastMode::Wired) => String::from_str("有线(LAN)"),
            Err(e) => {
                let mut s = String::from_str("未定位(");
                s.append(locate_error_text(e));
                s.append(")");
                s
            },
        },
    }
}

/// The bytes of a file as read, if it could be read.
pub open spec fn read_view(data: Option<Vec<u8>>) -> Option<Seq<u8>> {
    match data {
        Some(d) => Some(d@),
        None => None,
    }
}

/// The state of each selector, in the order `MiPCAudio.exe`, then the two of
/// `idmruntime.dll`, from the files' bytes (`None` where a file could not be read).
pub open spec fn spec_current_state(mipcaudio: Option<Seq<u8>>, idmruntime: Option<Seq<u8>>) -> Seq<(Seq<char>, Seq<char>)> {
    seq![
        (TARGET_MIPCAUDIO@, spec_site_state_text(mipcaudio, mipcaudio_sites()[0])),
        (TARGET_IDMRUNTIME@, spec_site_state_text(idmruntime, idmruntime_sites()[0])),
        (TARGET_IDMRUNTIME@, spec_site_state_text(idmruntime, idmruntime_sites()[1])),
    ]
}

/// The pairs as character sequences.
pub open spec fn pairs_view(v: Seq<(String, String)>) -> Seq<(Seq<char>, Seq<char>)> {
    v.map_values(|p: (String, String)| (p.0@, p.1@))
}

/// The broadcast-mode state of every selector, for the status view.
pub fn current_state(mipcaudio: &Option<Vec<u8>>, idmruntime: &Option<Vec<u8>>) -> (r: Vec<(String, String)>)
    ensures
        pairs_view(r@) == spec_current_state(read_view(*mipcaudio), read_view(*idmruntime)),
{
    let ms = mipcaudio_site_list();
    let is = idmruntime_site_list();
    assert(ms@[0].model() == mipcaudio_sites()[0]);
    assert(is@[0].model() == idmruntime_sites()[0]);
    assert(is@[1].model() == idmruntime_sites()[1]);
    let mut r: Vec<(String, String)> = Vec::new();
    r.push((String::from_str(TARGET_MIPCAUDIO), site_state_text(mipcaudio, &ms[0])));
    r.push((String::from_str(TARGET_IDMRUNTIME), site_state_text(idmruntime, &is[0])));
    r.push((String::from_str(TARGET_IDMRUNTIME), site_state_text(idmruntime, &is[1])));
    assert(pairs_view(r@) =~= spec_current_state(read_view(*mipcaudio), read_view(*idmruntime)));
    r
}

} // verus!
