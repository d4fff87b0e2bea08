//! Light kinds and the bookkeeping that decides which lights reach which shader slot.
use vstd::prelude::*;

verus! {

/// The three kinds of lights supported by the shaders.
#[derive(Clone, Copy, Debug, PartialEq, Eq, Structural)]
pub enum LightKind {
    Point,
    Spot,
    Directional,
}

/// The integer the shaders use to tell the kinds apart.
pub open spec fn kind_code(kind: LightKind) -> int {
    match kind {
        LightKind::Point => 0,
        LightKind::Spot => 1,
        LightKind::Directional => 2,
    }
}

impl LightKind {
    /// The value uploaded as a light's `type` uniform.
    pub fn shader_code(&self) -> (code: i32)
        ensures
            code == kind_code(*self),
            *self == LightKind::Point ==> code == 0,
            *self == LightKind::Spot ==> code == 1,
            *self == LightKind::Directional ==> code == 2,
    {
        match self {
            LightKind::Point => 0,
            LightKind::Spot => 1,
            LightKind::Directional => 2,
        }
    }
}


/// Number of light slots in the object shaders.
pub const MAX_LIGHTS: usize = 8;

/// Number of spotlight slots in the grid shader.
pub const MAX_SPOTS: usize = 4;

/// Number of lights the object shaders are told to read: all of them, up to [`MAX_LIGHTS`].
pub fn shader_light_count(count: usize) -> (n: i32)
    ensures
        n == if count < MAX_LIGHTS {
            count as int
        } else {
            MAX_LIGHTS as int
        },
{
    if count < MAX_LIGHTS {
        count as i32
    } else {
        MAX_LIGHTS as i32
    }
}

/// What fills each of the [`MAX_LIGHTS`] shader slots: slot `i` holds light `i` while
/// there is one, and default values (`None`) after the last light.
pub fn light_slots(count: usize) -> (slots: Vec<Option<usize>>)
    ensures
        slots@.len() == MAX_LIGHTS,
        forall|i: int|
            0 <= i < MAX_LIGHTS ==> #[trigger] slots@[i] == if i < count {
                Some(i as usize)
            } else {
                None
            },
{
    let mut slots: Vec<Option<usize>> = Vec::new();
    let mut i: usize = 0;
    while i < MAX_LIGHTS
        invariant
            i <= MAX_LIGHTS,
            slots@.len() == i,
            forall|j: int|
                0 <= j < i ==> #[trigger] slots@[j] == if j < count {
                    Some(j as usize)
                } else {
                    None
                },
        decreases MAX_LIGHTS - i,
    {
        if i < count {
            slots.push(Some(i));
        } else {
            slots.push(None);
        }
        i = i + 1;
    }
    slots
}

/// Positions, in order, of the spotlights among the first `n` lights.
pub open spec fn spot_positions(kinds: Seq<LightKind>, n: nat) -> Seq<usize>
    decreases n,
{
    if n == 0 {
        seq![]
    } else {
        let prev = spot_positions(kinds, (n - 1) as nat);
        if kinds[n - 1] == LightKind::Spot {
            prev.push((n - 1) as usize)
        } else {
            prev
        }
    }
}

/// The first `MAX_SPOTS` entries of `s` (all of them when there are fewer).
pub open spec fn first_spots(s: Seq<usize>) -> Seq<usize> {
    if s.len() <= MAX_SPOTS {
        s
    } else {
        s.take(MAX_SPOTS as int)
    }
}

/// The lights the grid shader lights the floor with: the first [`MAX_SPOTS`] spotlights,
/// in the order they come; every other kind of light is skipped.
pub fn spot_slots(kinds: &Vec<LightKind>) -> (spots: Vec<usize>)
    ensures
        spots@ == first_spots(spot_positions(kinds@, kinds@.len())),
        spots@.len() <= MAX_SPOTS,
        forall|k: int|
            0 <= k < spots@.len() ==> #[trigger] spots@[k] < kinds@.len() && kinds@[spots@[k] as int]
                == LightKind::Spot,
        forall|k1: int, k2: int|
            0 <= k1 < k2 < spots@.len() ==> #[trigger] spots@[k1] < #[trigger] spots@[k2],
        forall|i: int|
            0 <= i < kinds@.len() && #[trigger] kinds@[i] == LightKind::Spot && !spots@.contains(
                i as usize,
            ) ==> spots@.len() == MAX_SPOTS && forall|k: int| 0 <= k < spots@.len() ==> spots@[k] < i,
{
    let mut spots: Vec<usize> = Vec::new();
    let mut i: usize = 0;
    while i < kinds.len()
        invariant
            i <= kinds@.len(),
            spots@ == first_spots(spot_positions(kinds@, i as nat)),
            spots@.len() <= MAX_SPOTS,
            forall|k: int|
                0 <= k < spots@.len() ==> #[trigger] spots@[k] < i && kinds@[spots@[k] as int]
                    == LightKind::Spot,
            forall|k1: int, k2: int|
                0 <= k1 < k2 < spots@.len() ==> #[trigger] spots@[k1] < #[trigger] spots@[k2],
            forall|j: int|
                0 <= j < i && #[trigger] kinds@[j] == LightKind::Spot && !spots@.contains(j as usize)
                    ==> spots@.len() == MAX_SPOTS && forall|k: int|
                    0 <= k < spots@.len() ==> spots@[k] < j,
        decreases kinds@.len() - i,
    {
        let ghost before = spots@;
        let ghost prev = spot_positions(kinds@, i as nat);
        if kinds[i] == LightKind::Spot {
            if spots.len() < MAX_SPOTS {
                spots.push(i);
                assert(spots@[spots@.len() - 1] == i);
                assert forall|j: int|
                    0 <= j < i + 1 && #[trigger] kinds@[j] == LightKind::Spot && !spots@.contains(
                        j as usize,
                    ) implies spots@.len() == MAX_SPOTS && forall|k: int|
                    0 <= k < spots@.len() ==> spots@[k] < j by {
                    if j < i {
                        if before.contains(j as usize) {
                            let k = choose|k: int| 0 <= k < before.len() && before[k] == j as usize;
                            assert(spots@[k] == before[k]);
                        }
                    }
                }
            }
            proof {
                let next = prev.push(i);
                assert(spot_positions(kinds@, (i + 1) as nat) == next);
                if prev.len() >= MAX_SPOTS {
                    assert(next.take(MAX_SPOTS as int) =~= prev.take(MAX_SPOTS as int));
                } else {
                    assert(spots@ =~= first_spots(next));
                }
            }
        }
        i = i + 1;
    }
    spots
}

/// What the marker pass draws for one light: a glowing sphere at `light`, plus a
/// direction cone when `cone` holds.
pub struct Marker {
    pub light: usize,
    pub cone: bool,
}

/// The markers of the first `n` lights, in order: every light but a directional one
/// (which has no position) gets a sphere, and spotlights also get a cone.
pub open spec fn marker_list(kinds: Seq<LightKind>, n: nat) -> Seq<(usize, bool)>
    decreases n,
{
    if n == 0 {
        seq![]
    } else {
        let prev = marker_list(kinds, (n - 1) as nat);
        if kinds[n - 1] == LightKind::Directional {
            prev
        } else {
            prev.push(((n - 1) as usize, kinds[n - 1] == LightKind::Spot))
        }
    }
}

/// The markers to draw for a list of lights.
pub fn marker_plan(kinds: &Vec<LightKind>) -> (markers: Vec<Marker>)
    ensures
        markers@.len() == marker_list(kinds@, kinds@.len()).len(),
        forall|k: int|
            0 <= k < markers@.len() ==> (#[trigger] markers@[k].light, markers@[k].cone)
                == marker_list(kinds@, kinds@.len())[k],
{
    let mut markers: Vec<Marker> = Vec::new();
    let mut i: usize = 0;
    while i < kinds.len()
        invariant
            i <= kinds@.len(),
            markers@.len() == marker_list(kinds@, i as nat).len(),
            forall|k: int|
                0 <= k < markers@.len() ==> (#[trigger] markers@[k].light, markers@[k].cone)
                    == marker_list(kinds@, i as nat)[k],
        decreases kinds@.len() - i,
    {
        let ghost prev = marker_list(kinds@, i as nat);
        let kind = kinds[i];
        if kind != LightKind::Directional {
            markers.push(Marker { light: i, cone: kind == LightKind::Spot });
        }
        proof {
            let next = marker_list(kinds@, (i + 1) as nat);
            assert forall|k: int| 0 <= k < markers@.len() implies (
            #[trigger] markers@[k].light, markers@[k].cone) == next[k] by {
                if k < prev.len() {
                    assert(next[k] == prev[k]);
                }
            }
        }
        i = i + 1;
    }
    markers
}

/// Position of the first directional light (the sun the day/night cycle dims), if any.
pub fn first_directional(kinds: &Vec<LightKind>) -> (pos: Option<usize>)
    ensures
        match pos {
            Some(p) => p < kinds@.len() && kinds@[p as int] == LightKind::Directional && forall|
                j: int,
            | 0 <= j < p ==> kinds@[j] != LightKind::Directional,
            None => forall|j: int| 0 <= j < kinds@.len() ==> kinds@[j] != LightKind::Directional,
        },
{
    let mut i: usize = 0;
    while i < kinds.len()
        invariant
            i <= kinds@.len(),
            forall|j: int| 0 <= j < i ==> kinds@[j] != LightKind::Directional,
        decreases kinds@.len() - i,
    {
        if kinds[i] == LightKind::Directional {
            return Some(i);
        }
        i = i + 1;
    }
    None
}

/// Where a light drawn this frame comes from: the scene's own list or the
/// moving object's headlights.
#[derive(Clone, Copy, Debug, PartialEq, Eq, Structural)]
pub enum LightSource {
    Scene(usize),
    Headlight(usize),
}

/// The on/off switches of the light panel.
#[derive(Clone, Copy, Debug, PartialEq, Eq, Structural)]
pub struct LightSwitches {
    /// The point light above the scene (scene light 0).
    pub point: bool,
    /// The fixed spotlight (scene light 1).
    pub spot: bool,
    /// The sun (scene light 2).
    pub sun: bool,
    /// The moving object's headlights.
    pub headlights: bool,
}

/// The lights drawn this frame, in order: the point light, the fixed spotlight and the
/// sun when switched on, then every headlight when the headlights are on.
pub open spec fn active_light_list(sw: LightSwitches, headlight_count: nat) -> Seq<LightSource> {
    (if sw.point {
        seq![LightSource::Scene(0)]
    } else {
        seq![]
    }) + (if sw.spot {
        seq![LightSource::Scene(1)]
    } else {
        seq![]
    }) + (if sw.sun {
        seq![LightSource::Scene(2)]
    } else {
        seq![]
    }) + (if sw.headlights {
        Seq::new(headlight_count, |i: int| LightSource::Headlight(i as usize))
    } else {
        seq![]
    })
}

/// A light is drawn exactly when its switch is on: the point light (scene light 0), the
/// fixed spotlight (1) and the sun (2) each follow their own switch, every headlight
/// follows the headlight switch, and nothing else is drawn; the scene lights come first.
pub proof fn lemma_active_lights_follow_switches(sw: LightSwitches, n: nat)
    requires
        n <= usize::MAX,
    ensures
        ({
            let l = active_light_list(sw, n);
            let scene_count: int = (if sw.point { 1int } else { 0int }) + (if sw.spot { 1int } else { 0int }) + (if sw.sun { 1int } else { 0int });
            &&& l.len() == scene_count + (if sw.headlights { n as int } else { 0int })
            &&& l.contains(LightSource::Scene(0)) <==> sw.point
            &&& l.contains(LightSource::Scene(1)) <==> sw.spot
            &&& l.contains(LightSource::Scene(2)) <==> sw.sun
            &&& forall|j: usize| #[trigger] l.contains(LightSource::Scene(j)) ==> j < 3
            &&& forall|i: usize| #[trigger] l.contains(LightSource::Headlight(i)) <==> (sw.headlights && i < n)
            &&& forall|k: int| 0 <= k < scene_count ==> #[trigger] l[k] is Scene
            &&& forall|k: int| scene_count <= k < l.len() ==> #[trigger] l[k] is Headlight
        }),
{
    let a: Seq<LightSource> = if sw.point { seq![LightSource::Scene(0)] } else { seq![] };
    let b: Seq<LightSource> = if sw.spot { seq![LightSource::Scene(1)] } else { seq![] };
    let c: Seq<LightSource> = if sw.sun { seq![LightSource::Scene(2)] } else { seq![] };
    let d: Seq<LightSource> = if sw.headlights {
        Seq::new(n, |i: int| LightSource::Headlight(i as usize))
    } else {
        seq![]
    };
    let pre = a + b + c;
    let l = active_light_list(sw, n);
    assert(l == pre + d);
    let sc = pre.len() as int;
    assert forall|k: int| 0 <= k < l.len() implies (k < sc ==> #[trigger] l[k] == pre[k]) && (sc <= k
        ==> l[k] == d[k - sc]) by {}
    assert forall|k: int| 0 <= k < sc implies (#[trigger] pre[k] == LightSource::Scene(0) && sw.point
        && k == 0) || (pre[k] == LightSource::Scene(1) && sw.spot && k == a.len()) || (pre[k]
        == LightSource::Scene(2) && sw.sun && k == a.len() + b.len()) by {
        if k < a.len() {
            assert(pre[k] == a[k]);
        } else if k < a.len() + b.len() {
            assert(pre[k] == b[k - a.len()]);
        } else {
            assert(pre[k] == c[k - a.len() - b.len()]);
        }
    }
    assert forall|k: int| 0 <= k < d.len() implies #[trigger] d[k] == LightSource::Headlight(k as usize) by {}
    if sw.point {
        assert(l[0] == LightSource::Scene(0));
    }
    if sw.spot {
        assert(l[a.len() as int] == LightSource::Scene(1));
    }
    if sw.sun {
        assert(l[(a.len() + b.len()) as int] == LightSource::Scene(2));
    }
    assert forall|i: usize| #[trigger] l.contains(LightSource::Headlight(i)) <==> (sw.headlights && i < n) by {
        if sw.headlights && i < n {
            assert(l[sc + i] == LightSource::Headlight(i));
        }
        if l.contains(LightSource::Headlight(i)) {
            let k = choose|k: int| 0 <= k < l.len() && l[k] == LightSource::Headlight(i);
            assert(l[k] == pre[k] || l[k] == d[k - sc]);
        }
    }
    assert forall|j: usize| #[trigger] l.contains(LightSource::Scene(j)) implies j < 3 by {
        let k = choose|k: int| 0 <= k < l.len() && l[k] == LightSource::Scene(j);
        assert(l[k] == pre[k] || l[k] == d[k - sc]);
    }
    if l.contains(LightSource::Scene(0)) {
        let k = choose|k: int| 0 <= k < l.len() && l[k] == LightSource::Scene(0);
        assert(l[k] == pre[k] || l[k] == d[k - sc]);
    }
    if l.contains(LightSource::Scene(1)) {
        let k = choose|k: int| 0 <= k < l.len() && l[k] == LightSource::Scene(1);
        assert(l[k] == pre[k] || l[k] == d[k - sc]);
    }
    if l.contains(LightSource::Scene(2)) {
        let k = choose|k: int| 0 <= k < l.len() && l[k] == LightSource::Scene(2);
        assert(l[k] == pre[k] || l[k] == d[k - sc]);
    }
}

/// The drawn scene lights come first, in increasing order, and then headlight 0, 1, 2, ...
pub proof fn lemma_active_lights_order(sw: LightSwitches, n: nat)
    requires
        n <= usize::MAX,
    ensures
        ({
            let l = active_light_list(sw, n);
            let sc: int = (if sw.point { 1int } else { 0int }) + (if sw.spot { 1int } else { 0int }) + (if sw.sun { 1int } else { 0int });
            &&& forall|k: int| sc <= k < l.len() ==> #[trigger] l[k] == LightSource::Headlight((k - sc) as usize)
            &&& forall|k1: int, k2: int| 0 <= k1 < k2 < sc ==> (#[trigger] l[k1]) is Scene && (#[trigger] l[k2]) is Scene && l[k1]->Scene_0 < l[k2]->Scene_0
        }),
{
    let a: Seq<LightSource> = if sw.point { seq![LightSource::Scene(0)] } else { seq![] };
    let b: Seq<LightSource> = if sw.spot { seq![LightSource::Scene(1)] } else { seq![] };
    let c: Seq<LightSource> = if sw.sun { seq![LightSource::Scene(2)] } else { seq![] };
    let d: Seq<LightSource> = if sw.headlights {
        Seq::new(n, |i: int| LightSource::Headlight(i as usize))
    } else {
        seq![]
    };
    let pre = a + b + c;
    let l = active_light_list(sw, n);
    assert(l == pre + d);
    let sc = pre.len() as int;
    assert forall|k: int| sc <= k < l.len() implies #[trigger] l[k] == LightSource::Headlight((k - sc) as usize) by {
        assert(l[k] == d[k - sc]);
    }
    assert forall|k: int| 0 <= k < sc implies #[trigger] pre[k] == LightSource::Scene(
        (if k < a.len() { 0int } else if k < a.len() + b.len() { 1int } else { 2int }) as usize) by {
        if k < a.len() {
            assert(pre[k] == a[k]);
        } else if k < a.len() + b.len() {
            assert(pre[k] == b[k - a.len()]);
        } else {
            assert(pre[k] == c[k - a.len() - b.len()]);
        }
    }
    assert forall|k1: int, k2: int| 0 <= k1 < k2 < sc implies (#[trigger] l[k1]) is Scene && (
    #[trigger] l[k2]) is Scene && l[k1]->Scene_0 < l[k2]->Scene_0 by {
        assert(l[k1] == pre[k1]);
        assert(l[k2] == pre[k2]);
    }
}

/// The lights to draw this frame.
pub fn active_lights(sw: LightSwitches, headlight_count: usize) -> (lights: Vec<LightSource>)
    ensures
        lights@ == active_light_list(sw, headlight_count as nat),
        lights@.contains(LightSource::Scene(0)) <==> sw.point,
        lights@.contains(LightSource::Scene(1)) <==> sw.spot,
        lights@.contains(LightSource::Scene(2)) <==> sw.sun,
        forall|j: usize| #[trigger] lights@.contains(LightSource::Scene(j)) ==> j < 3,
        forall|i: usize|
            #[trigger] lights@.contains(LightSource::Headlight(i)) <==> (sw.headlights && i
                < headlight_count),
        lights@.len() == (if sw.point { 1int } else { 0int }) + (if sw.spot { 1int } else { 0int })
            + (if sw.sun { 1int } else { 0int }) + (if sw.headlights { headlight_count as int } else { 0int }),
        ({
            let sc: int = (if sw.point { 1int } else { 0int }) + (if sw.spot { 1int } else { 0int }) + (if sw.sun { 1int } else { 0int });
            &&& forall|k: int| sc <= k < lights@.len() ==> #[trigger] lights@[k] == LightSource::Headlight((k - sc) as usize)
            &&& forall|k1: int, k2: int| 0 <= k1 < k2 < sc ==> (#[trigger] lights@[k1]) is Scene && (#[trigger] lights@[k2]) is Scene && lights@[k1]->Scene_0 < lights@[k2]->Scene_0
        }),
{
    let mut lights: Vec<LightSource> = Vec::new();
    if sw.point {
        lights.push(LightSource::Scene(0));
    }
    if sw.spot {
        lights.push(LightSource::Scene(1));
    }
    if sw.sun {
        lights.push(LightSource::Scene(2));
    }
    let ghost fixed = lights@;
    if sw.headlights {
        let mut i: usize = 0;
        while i < headlight_count
            invariant
                i <= headlight_count,
                lights@ == fixed + Seq::new(i as nat, |k: int| LightSource::Headlight(k as usize)),
            decreases headlight_count - i,
        {
            lights.push(LightSource::Headlight(i));
            assert(lights@ =~= fixed + Seq::new((i + 1) as nat, |k: int| LightSource::Headlight(k as usize)));
            i = i + 1;
        }
    }
    assert(lights@ =~= active_light_list(sw, headlight_count as nat));
    proof {
        lemma_active_lights_follow_switches(sw, headlight_count as nat);
        lemma_active_lights_order(sw, headlight_count as nat);
    }
    lights
}

/// The spotlight positions name spotlights, in increasing order, among the first `n` lights.
pub proof fn lemma_spot_positions(kinds: Seq<LightKind>, n: nat)
    requires
        n <= kinds.len(),
        n <= usize::MAX,
    ensures
        spot_positions(kinds, n).len() <= n,
        forall|k: int|
            0 <= k < spot_positions(kinds, n).len() ==> {
                let p = #[trigger] spot_positions(kinds, n)[k];
                p < n && kinds[p as int] == LightKind::Spot
            },
        forall|k: int, l: int|
            0 <= k < l < spot_positions(kinds, n).len() ==> #[trigger] spot_positions(kinds, n)[k]
                < #[trigger] spot_positions(kinds, n)[l],
    decreases n,
{
    if n > 0 {
        lemma_spot_positions(kinds, (n - 1) as nat);
        let prev = spot_positions(kinds, (n - 1) as nat);
        let all = spot_positions(kinds, n);
        if kinds[n - 1] == LightKind::Spot {
            assert(all == prev.push((n - 1) as usize));
            assert forall|k: int| 0 <= k < all.len() implies {
                let p = #[trigger] all[k];
                p < n && kinds[p as int] == LightKind::Spot
            } by {
                if k < prev.len() {
                    assert(all[k] == prev[k]);
                }
            }
            assert forall|k: int, l: int| 0 <= k < l < all.len() implies #[trigger] all[k]
                < #[trigger] all[l] by {
                assert(all[k] == prev[k]);
                if l < prev.len() {
                    assert(all[l] == prev[l]);
                }
            }
        } else {
            assert(all == prev);
        }
    }
}

/// The grid shader gets at most [`MAX_SPOTS`] lights, all of them spotlights, each once,
/// in the order of the light list.
pub proof fn lemma_spot_slots(kinds: Seq<LightKind>)
    requires
        kinds.len() <= usize::MAX,
    ensures
        first_spots(spot_positions(kinds, kinds.len())).len() <= MAX_SPOTS,
        forall|k: int|
            0 <= k < first_spots(spot_positions(kinds, kinds.len())).len() ==> {
                let p = #[trigger] first_spots(spot_positions(kinds, kinds.len()))[k];
                p < kinds.len() && kinds[p as int] == LightKind::Spot
            },
        forall|k: int, l: int|
            0 <= k < l < first_spots(spot_positions(kinds, kinds.len())).len() ==> #[trigger] first_spots(
                spot_positions(kinds, kinds.len()),
            )[k] < #[trigger] first_spots(spot_positions(kinds, kinds.len()))[l],
{
    lemma_spot_positions(kinds, kinds.len());
    let all = spot_positions(kinds, kinds.len());
    let f = first_spots(all);
    assert forall|k: int| 0 <= k < f.len() implies f[k] == all[k] by {}
}

/// Markers go to every light with a position, in order; only spotlights get a cone.
pub proof fn lemma_marker_list(kinds: Seq<LightKind>, n: nat)
    requires
        n <= kinds.len(),
        n <= usize::MAX,
    ensures
        forall|k: int|
            0 <= k < marker_list(kinds, n).len() ==> {
                let m = #[trigger] marker_list(kinds, n)[k];
                &&& m.0 < n
                &&& kinds[m.0 as int] != LightKind::Directional
                &&& m.1 == (kinds[m.0 as int] == LightKind::Spot)
            },
        forall|k: int, l: int|
            0 <= k < l < marker_list(kinds, n).len() ==> #[trigger] marker_list(kinds, n)[k].0
                < #[trigger] marker_list(kinds, n)[l].0,
        forall|i: int|
            0 <= i < n && kinds[i] != LightKind::Directional ==> exists|k: int|
                0 <= k < marker_list(kinds, n).len() && #[trigger] marker_list(kinds, n)[k].0 == i,
    decreases n,
{
    if n > 0 {
        lemma_marker_list(kinds, (n - 1) as nat);
        let prev = marker_list(kinds, (n - 1) as nat);
        let all = marker_list(kinds, n);
        if kinds[n - 1] != LightKind::Directional {
            let m = ((n - 1) as usize, kinds[n - 1] == LightKind::Spot);
            assert(all == prev.push(m));
            assert forall|k: int| 0 <= k < all.len() implies {
                let m = #[trigger] all[k];
                &&& m.0 < n
                &&& kinds[m.0 as int] != LightKind::Directional
                &&& m.1 == (kinds[m.0 as int] == LightKind::Spot)
            } by {
                if k < prev.len() {
                    assert(all[k] == prev[k]);
                }
            }
            assert forall|k: int, l: int| 0 <= k < l < all.len() implies #[trigger] all[k].0
                < #[trigger] all[l].0 by {
                assert(all[k] == prev[k]);
                if l < prev.len() {
                    assert(all[l] == prev[l]);
                }
            }
        } else {
            assert(all == prev);
        }
        assert forall|i: int|
            0 <= i < n && kinds[i] != LightKind::Directional implies exists|k: int|
                0 <= k < all.len() && #[trigger] all[k].0 == i by {
            if i < n - 1 {
                let k = choose|k: int| 0 <= k < prev.len() && #[trigger] prev[k].0 == i;
                assert(all[k] == prev[k]);
            } else {
                assert(all == prev.push(((n - 1) as usize, kinds[n - 1] == LightKind::Spot)));
                assert(all[prev.len() as int].0 == i);
            }
        }
    }
}

} // verus!
