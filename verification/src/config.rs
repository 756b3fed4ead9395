//! The configuration of an app that mods are built for.
use crate::text::str_eq;
use vstd::prelude::*;

verus! {

/// The Unity versions whose il2cpp output this tool understands.
pub open spec fn supported_unity_ver(ver: Seq<char>) -> bool {
    ver == "2019.4.28f1"@
}

/// Whether `ver` is a supported Unity version.
pub fn verify_unity_ver(ver: &str) -> (b: bool)
    ensures
        b == supported_unity_ver(ver@),
{
    str_eq(ver, "2019.4.28f1")
}

/// The configuration of an app: the Unity version it was built with, and
/// the methods that need shims. No shim is listed twice.
pub struct AppConfig {
    pub unity_version: String,
    pub shims: Vec<String>,
}

pub open spec fn names_of(v: Seq<String>) -> Seq<Seq<char>> {
    v.map_values(|s: String| s@)
}

impl AppConfig {
    pub open spec fn wf(&self) -> bool {
        names_of(self.shims@).no_duplicates()
    }

    /// A configuration for `unity_version` with the shims `shims`, each kept
    /// once, in the order of first mention.
    pub fn new(unity_version: String, shims: Vec<String>) -> (r: Self)
        ensures
            r.wf(),
            r.unity_version@ == unity_version@,
            names_of(r.shims@).to_set() == names_of(shims@).to_set(),
    {
        let ghost sv = names_of(shims@);
        let mut kept: Vec<String> = Vec::new();
        let mut i: usize = 0;
        proof {
            assert(names_of(kept@).to_set() =~= sv.take(0).to_set());
        }
        while i < shims.len()
            invariant
                0 <= i <= shims@.len(),
                sv == names_of(shims@),
                names_of(kept@).no_duplicates(),
                names_of(kept@).to_set() == sv.take(i as int).to_set(),
            decreases shims@.len() - i,
        {
            let ghost kv = names_of(kept@);
            let mut seen = false;
            let mut k: usize = 0;
            while k < kept.len()
                invariant
                    0 <= k <= kept@.len(),
                    i < shims@.len(),
                    kv == names_of(kept@),
                    sv == names_of(shims@),
                    seen <==> exists|j: int| 0 <= j < k && kv[j] == sv[i as int],
                decreases kept@.len() - k,
            {
                proof {
                    assert(kv[k as int] == kept@[k as int]@);
                    assert(sv[i as int] == shims@[i as int]@);
                }
                if str_eq(kept[k].as_str(), shims[i].as_str()) {
                    seen = true;
                }
                k = k + 1;
            }
            proof {
                assert(sv.take(i + 1) =~= sv.take(i as int).push(sv[i as int]));
                sv.take(i as int).lemma_push_to_set_commute(sv[i as int]);
            }
            if !seen {
                kept.push(shims[i].clone());
                proof {
                    assert(names_of(kept@) =~= kv.push(sv[i as int]));
                    assert(!kv.contains(sv[i as int]));
                    kv.lemma_push_to_set_commute(sv[i as int]);
                    assert(names_of(kept@).no_duplicates()) by {
                        let nk = names_of(kept@);
                        assert forall|a: int, b: int| 0 <= a < nk.len() && 0 <= b < nk.len() && a != b implies nk[a] != nk[b] by {
                            if a < kv.len() && b < kv.len() {
                                assert(nk[a] == kv[a] && nk[b] == kv[b]);
                            } else if a == kv.len() {
                                assert(nk[b] == kv[b]);
                                assert(kv.contains(kv[b]));
                            } else {
                                assert(nk[a] == kv[a]);
                                assert(kv.contains(kv[a]));
                            }
                        }
                    }
                }
            } else {
                proof {
                    let j = choose|j: int| 0 <= j < kv.len() && kv[j] == sv[i as int];
                    assert(kv.to_set().contains(sv[i as int]));
                    assert(kv.to_set().insert(sv[i as int]) =~= kv.to_set());
                }
            }
            i = i + 1;
        }
        proof {
            assert(sv.take(shims@.len() as int) =~= sv);
        }
        AppConfig { unity_version, shims: kept }
    }
}

} // verus!
