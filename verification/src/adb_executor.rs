//! Running one intent through the device: the dispatch timeout for the
//! receiver kind and the plan of side-channel payloads to provision before
//! the command is dispatched.

use vstd::prelude::*;
use vstd::string::StringExecFns;
use crate::adb_device::AdbDevice;
use crate::intent_input::ExtraInput;
use crate::intent_input::ExtraType;
use crate::intent_input::IntentInput;
use crate::intent_input::ReceiverType;
use crate::intent_input::URIInput;
use crate::intent_input::URIScheme;
use crate::intent_input::spec_identifier;
use crate::intent_input::spec_suffix_text;
use crate::text::dec_digits;
use crate::text::usize_text;

verus! {

/// Dispatches intents through the device shell and provisions their
/// URI-backed payloads first.
#[derive(Debug)]
pub struct AdbExecutor {
    pub adb_device: AdbDevice,
}

/// One payload to materialize on the device before dispatch.
#[derive(Clone, Debug)]
pub enum ProvisionAction {
    /// Write the bytes through the on-device content provider.
    RegisterContent { uri: String, content: Vec<u8> },
    /// Write the bytes into a file under the device's temporary directory.
    CreateFile { path: String, content: Vec<u8> },
}

/// The on-device file path for a file-scheme payload at `slot`: the URI
/// identifier with its `file://` prefix stripped.
pub open spec fn spec_file_path(u: URIInput, slot: nat) -> Seq<char> {
    ("/data/local/tmp/extra_input_")@ + dec_digits(slot) + spec_suffix_text(u.suffix)
}

/// Whether `a` is the right provisioning step for the payload `u` at `slot`.
pub open spec fn provision_matches(a: ProvisionAction, u: URIInput, slot: nat) -> bool {
    match u.scheme {
        URIScheme::Content => a matches ProvisionAction::RegisterContent { uri, content }
            && uri@ == spec_identifier(u, slot) && content@ == u.content@,
        URIScheme::File => a matches ProvisionAction::CreateFile { path, content } && path@
            == spec_file_path(u, slot) && content@ == u.content@,
        URIScheme::Other => false,
    }
}

/// The payloads the extras ask for: each URI-typed extra at its 1-based
/// slot, in order, except inline (`Other`) URIs, which need no provisioning.
pub open spec fn prov_pairs_extras(extras: Seq<ExtraInput>) -> Seq<(int, URIInput)>
    decreases extras.len(),
{
    if extras.len() == 0 {
        Seq::<(int, URIInput)>::empty()
    } else {
        prov_pairs_extras(extras.drop_last()) + (match extras.last().value {
            ExtraType::URI(u) => if u.scheme != URIScheme::Other {
                seq![(extras.len() as int, u)]
            } else {
                Seq::<(int, URIInput)>::empty()
            },
            _ => Seq::<(int, URIInput)>::empty(),
        })
    }
}

/// Every payload the input asks for: the URI extras, then the data payload
/// at slot zero.
pub open spec fn prov_pairs(i: IntentInput) -> Seq<(int, URIInput)> {
    prov_pairs_extras(i.extras@) + (match i.data {
        Option::Some(u) => if u.scheme != URIScheme::Other {
            seq![(0int, u)]
        } else {
            Seq::<(int, URIInput)>::empty()
        },
        Option::None => Seq::<(int, URIInput)>::empty(),
    })
}

/// The dispatch wall-clock budget: five seconds for an activity, twenty for
/// anything else.
pub fn dispatch_timeout_secs(rt: ReceiverType) -> (r: u64)
    ensures
        rt == ReceiverType::Activity ==> r == 5,
        rt != ReceiverType::Activity ==> r == 20,
{
    match rt {
        ReceiverType::Activity => 5,
        _ => 20,
    }
}

fn provision_for(u: &URIInput, slot: usize) -> (r: Option<ProvisionAction>)
    ensures
        match r {
            Option::Some(a) => provision_matches(a, *u, slot as nat),
            Option::None => u.scheme == URIScheme::Other,
        },
{
    match u.scheme {
        URIScheme::Content => {
            let uri = u.identifier(slot);
            let content = u.content.clone();
            proof {
                assert(content@ =~= u.content@);
            }
            Some(ProvisionAction::RegisterContent { uri, content })
        },
        URIScheme::File => {
            let mut path = String::from_str("/data/local/tmp/extra_input_");
            path.append(usize_text(slot).as_str());
            path.append(u.suffix.text());
            let content = u.content.clone();
            proof {
                assert(content@ =~= u.content@);
            }
            Some(ProvisionAction::CreateFile { path, content })
        },
        URIScheme::Other => None,
    }
}

impl AdbExecutor {
    pub fn new(adb_device: AdbDevice) -> (r: AdbExecutor)
        ensures
            r.adb_device == adb_device,
    {
        AdbExecutor { adb_device }
    }

    /// The provisioning steps for one input, in order: one step per URI
    /// extra at its 1-based slot, then one for the data payload at slot
    /// zero; inline URIs are skipped.
    pub fn provisioning_plan(&self, input: &IntentInput) -> (r: Vec<ProvisionAction>)
        ensures
            r@.len() == prov_pairs(*input).len(),
            forall|k: int|
                0 <= k < r@.len() ==> provision_matches(
                    #[trigger] r@[k],
                    prov_pairs(*input)[k].1,
                    prov_pairs(*input)[k].0 as nat,
                ),
    {
        let mut plan: Vec<ProvisionAction> = Vec::new();
        let mut i: usize = 0;
        proof {
            assert(input.extras@.take(0) =~= Seq::<ExtraInput>::empty());
        }
        while i < input.extras.len()
            invariant
                i <= input.extras@.len(),
                plan@.len() == prov_pairs_extras(input.extras@.take(i as int)).len(),
                forall|k: int|
                    0 <= k < plan@.len() ==> provision_matches(
                        #[trigger] plan@[k],
                        prov_pairs_extras(input.extras@.take(i as int))[k].1,
                        prov_pairs_extras(input.extras@.take(i as int))[k].0 as nat,
                    ),
            decreases input.extras@.len() - i,
        {
            let e: &ExtraInput = &input.extras[i];
            let ghost before = prov_pairs_extras(input.extras@.take(i as int));
            match &e.value {
                ExtraType::URI(u) => {
                    match provision_for(u, i + 1) {
                        Some(a) => {
                            plan.push(a);
                        },
                        None => {},
                    }
                },
                _ => {},
            }
            proof {
                assert(input.extras@.take(i + 1).drop_last() =~= input.extras@.take(i as int));
                assert(input.extras@.take(i + 1).last() == input.extras@[i as int]);
                assert(input.extras@.take(i + 1).len() == i + 1);
            }
            i += 1;
        }
        proof {
            assert(input.extras@.take(input.extras@.len() as int) =~= input.extras@);
        }
        match &input.data {
            Some(u) => {
                match provision_for(u, 0) {
                    Some(a) => {
                        plan.push(a);
                    },
                    None => {},
                }
            },
            None => {},
        }
        plan
    }
}

} // verus!
