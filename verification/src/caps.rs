//! What is offered to a client for the graphics channel.

use vstd::prelude::*;

verus! {

/// Versions of the graphics channel.
#[allow(non_camel_case_types)]
#[derive(Clone, Copy, PartialEq, Eq, Structural, Debug)]
pub enum Version {
    V8,
    V8_1,
    V10,
    V10_1,
    V10_2,
    V10_3,
    V10_4,
    V10_5,
    V10_6,
    V10_6Err,
    V10_7,
}

/// A version with its flags, as a client advertises it or the server offers it.
#[derive(Clone, Copy, PartialEq, Eq, Structural, Debug)]
pub struct Caps {
    pub version: Version,
    pub flags: u32,
}

/// The client has a small cache.
pub const SMALL_CACHE: u32 = 0x2;

/// AVC420 may be used, in version 8.1.
pub const AVC420_ENABLED: u32 = 0x10;

/// H.264 may not be used, from version 10 on.
pub const AVC_DISABLED: u32 = 0x20;

impl Caps {
    /// Whether a client that advertises this refuses H.264. Versions before 10, and 10.1,
    /// have no flag to say so.
    pub open spec fn refuses_avc(self) -> bool {
        !(self.version is V8 || self.version is V8_1 || self.version is V10_1) && self.flags
            / AVC_DISABLED % 2 == 1
    }

    fn is_refusal(self) -> (r: bool)
        ensures
            r == self.refuses_avc(),
    {
        match self.version {
            Version::V8 | Version::V8_1 | Version::V10_1 => false,
            _ => self.flags / AVC_DISABLED % 2 == 1,
        }
    }
}

/// Whether a client refuses H.264.
pub open spec fn refused(advertised: Seq<Caps>) -> bool {
    exists|i: int| 0 <= i < advertised.len() && (#[trigger] advertised[i]).refuses_avc()
}

/// What is offered, by whether the client refuses H.264. Flags are joined by what both ends
/// set, so its refusal holds only if it is repeated here.
pub open spec fn offers(refused: bool) -> Seq<Caps> {
    let v10 = if refused {
        (SMALL_CACHE + AVC_DISABLED) as u32
    } else {
        SMALL_CACHE
    };
    let v8_1 = if refused {
        SMALL_CACHE
    } else {
        (SMALL_CACHE + AVC420_ENABLED) as u32
    };
    seq![
        Caps { version: Version::V10_7, flags: v10 },
        Caps { version: Version::V10, flags: v10 },
        Caps { version: Version::V8_1, flags: v8_1 },
        Caps { version: Version::V8, flags: SMALL_CACHE },
    ]
}

/// Decides what to offer to a client, by what it advertises.
pub fn offered(advertised: &[Caps]) -> (r: Vec<Caps>)
    ensures
        r@ == offers(refused(advertised@)),
{
    let mut no_avc: bool = false;
    let mut i: usize = 0;
    while i < advertised.len()
        invariant
            i <= advertised@.len(),
            no_avc == refused(advertised@.take(i as int)),
        decreases advertised.len() - i,
    {
        let ghost before = advertised@.take(i as int);
        let one: bool = advertised[i].is_refusal();
        proof {
            let more = advertised@.take(i + 1);
            if refused(before) {
                let k = choose|k: int| 0 <= k < before.len() && (#[trigger] before[k]).refuses_avc();
                assert(more[k].refuses_avc());
            }
            if one {
                assert(more[i as int].refuses_avc());
            }
            if refused(more) {
                let k = choose|k: int| 0 <= k < more.len() && (#[trigger] more[k]).refuses_avc();
                if k < i {
                    assert(before[k].refuses_avc());
                }
            }
        }
        no_avc = no_avc || one;
        i += 1;
    }
    proof {
        assert(advertised@.take(i as int) =~= advertised@);
    }
    let v10: u32 = if no_avc {
        SMALL_CACHE + AVC_DISABLED
    } else {
        SMALL_CACHE
    };
    let v8_1: u32 = if no_avc {
        SMALL_CACHE
    } else {
        SMALL_CACHE + AVC420_ENABLED
    };
    let mut v: Vec<Caps> = Vec::new();
    v.push(Caps { version: Version::V10_7, flags: v10 });
    v.push(Caps { version: Version::V10, flags: v10 });
    v.push(Caps { version: Version::V8_1, flags: v8_1 });
    v.push(Caps { version: Version::V8, flags: SMALL_CACHE });
    proof {
        assert(v@ =~= offers(no_avc));
    }
    v
}

/// A refusal reaches every offer that can carry one, and H.264 is offered in no other; a
/// client that refuses nothing is refused nothing.
pub proof fn law_refusal_is_repeated(advertised: Seq<Caps>, i: int)
    requires
        0 <= i < offers(refused(advertised)).len(),
    ensures
        ({
            let c = offers(refused(advertised))[i];
            &&& (c.version is V10 || c.version is V10_7) ==> c.refuses_avc() == refused(advertised)
            &&& c.version is V8_1 ==> (c.flags / AVC420_ENABLED % 2 == 1) == !refused(advertised)
        }),
{
}

/// Four versions are offered, the newest first, all with a small cache. Where the client
/// sets the bit by which it refuses H.264, in any version that has it, both versions that
/// have it repeat it, and version 8.1 does not offer H.264; else that offers it, and none
/// refuses.
pub proof fn law_offers_follow_the_refusal(advertised: Seq<Caps>, i: int)
    requires
        0 <= i < advertised.len(),
        advertised[i].flags / 32 % 2 == 1,
        advertised[i].version is V10 || advertised[i].version is V10_2 || advertised[i].version
            is V10_3 || advertised[i].version is V10_4 || advertised[i].version is V10_5
            || advertised[i].version is V10_6 || advertised[i].version is V10_6Err
            || advertised[i].version is V10_7,
    ensures
        offers(refused(advertised)) == seq![
            Caps { version: Version::V10_7, flags: 34 },
            Caps { version: Version::V10, flags: 34 },
            Caps { version: Version::V8_1, flags: 2 },
            Caps { version: Version::V8, flags: 2 },
        ],
{
    assert(advertised[i].refuses_avc());
}

/// What is offered to a client that refuses nothing.
pub proof fn law_offers_without_a_refusal(advertised: Seq<Caps>)
    requires
        forall|i: int|
            0 <= i < advertised.len() ==> (#[trigger] advertised[i]).flags / 32 % 2 == 0
                || advertised[i].version is V8 || advertised[i].version is V8_1
                || advertised[i].version is V10_1,
    ensures
        offers(refused(advertised)) == seq![
            Caps { version: Version::V10_7, flags: 2 },
            Caps { version: Version::V10, flags: 2 },
            Caps { version: Version::V8_1, flags: 18 },
            Caps { version: Version::V8, flags: 2 },
        ],
{
}

} // verus!
