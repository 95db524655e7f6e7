//! Named lighting schemes: saving, deleting, editing them in place, binding them to power
//! modes, and applying them.

use vstd::prelude::*;

use crate::config::settings::{AppConfig, LightingScheme, ModeBinding};
use crate::hardware::keyboard_rgb;
use crate::hardware::keyboard_rgb::KeyboardState;
use crate::hardware::light_bar;
use crate::hardware::light_bar::{LightBarMode, LightBarState};
use crate::hardware::request::Request;
use crate::protocol::helper::Action;
use crate::text::{chars_of, same, text_of, texts, trim, trimmed};

verus! {

/// What stands for "no scheme" in a list of schemes.
pub const NO_SCHEME: &'static str = "—";

/// A scheme as contracts speak of it.
pub struct Scheme {
    pub name: Seq<char>,
    pub keyboard: Option<KeyboardState>,
    pub light_bar: Option<LightBarState>,
}

/// A binding as contracts speak of it.
pub struct Binding {
    pub mode: Seq<char>,
    pub scheme: Seq<char>,
}

/// A scheme as contracts speak of it.
pub open spec fn scheme_view(scheme: LightingScheme) -> Scheme {
    Scheme { name: scheme.name@, keyboard: scheme.keyboard, light_bar: scheme.light_bar }
}

/// Schemes as contracts speak of them.
pub open spec fn schemes_view(list: Seq<LightingScheme>) -> Seq<Scheme> {
    Seq::new(list.len(), |i: int| scheme_view(list[i]))
}

/// A binding as contracts speak of it.
pub open spec fn binding_view(binding: ModeBinding) -> Binding {
    Binding { mode: binding.mode@, scheme: binding.scheme@ }
}

/// Bindings as contracts speak of them.
pub open spec fn bindings_view(list: Seq<ModeBinding>) -> Seq<Binding> {
    Seq::new(list.len(), |i: int| binding_view(list[i]))
}

/// The names of the schemes, in order.
pub fn scheme_names(schemes: &Vec<LightingScheme>) -> (r: Vec<String>)
    ensures
        r@.len() == schemes@.len(),
        forall|i: int| 0 <= i < r@.len() ==> (#[trigger] r@[i])@ == schemes@[i].name@,
{
    let mut out: Vec<String> = Vec::new();
    let mut i: usize = 0;
    while i < schemes.len()
        invariant
            i <= schemes@.len(),
            out@.len() == i,
            forall|k: int| 0 <= k < i ==> (#[trigger] out@[k])@ == schemes@[k].name@,
        decreases schemes@.len() - i,
    {
        out.push(schemes[i].name.clone());
        i = i + 1;
    }
    out
}

/// The place of the first scheme of this name.
pub open spec fn place_of(list: Seq<Scheme>, name: Seq<char>) -> Option<int>
    decreases list.len(),
{
    if list.len() == 0 {
        None
    } else {
        match place_of(list.drop_last(), name) {
            Some(i) => Some(i),
            None => if list.last().name == name {
                Some(list.len() - 1)
            } else {
                None
            },
        }
    }
}

proof fn lemma_place_of(list: Seq<Scheme>, name: Seq<char>)
    ensures
        match place_of(list, name) {
            Some(i) => 0 <= i < list.len() && list[i].name == name && forall|k: int|
                0 <= k < i ==> (#[trigger] list[k]).name != name,
            None => forall|k: int| 0 <= k < list.len() ==> (#[trigger] list[k]).name != name,
        },
    decreases list.len(),
{
    if list.len() > 0 {
        let front = list.drop_last();
        lemma_place_of(front, name);
        match place_of(front, name) {
            Some(i) => {
                assert(list[i] == front[i]);
                assert forall|k: int| 0 <= k < i implies (#[trigger] list[k]).name != name by {
                    assert(list[k] == front[k]);
                }
            },
            None => {
                assert forall|k: int| 0 <= k < list.len() - 1 implies (#[trigger] list[k]).name
                    != name by {
                    assert(list[k] == front[k]);
                }
            },
        }
    }
}

proof fn lemma_place_is(list: Seq<Scheme>, name: Seq<char>, i: int)
    requires
        0 <= i < list.len(),
        list[i].name == name,
        forall|k: int| 0 <= k < i ==> (#[trigger] list[k]).name != name,
    ensures
        place_of(list, name) == Some(i),
{
    lemma_place_of(list, name);
    match place_of(list, name) {
        Some(j) => {
            if j < i {
                assert(list[j].name != name);
            } else if i < j {
                assert(list[i].name != name);
            }
        },
        None => {
            assert(list[i].name != name);
        },
    }
}

fn find_scheme(schemes: &Vec<LightingScheme>, name: &str) -> (r: Option<usize>)
    ensures
        match r {
            Some(i) => place_of(schemes_view(schemes@), name@) == Some(i as int) && i
                < schemes@.len(),
            None => place_of(schemes_view(schemes@), name@) is None,
        },
{
    let ghost list = schemes_view(schemes@);
    let mut i: usize = 0;
    while i < schemes.len()
        invariant
            i <= schemes@.len(),
            list == schemes_view(schemes@),
            forall|k: int| 0 <= k < i ==> (#[trigger] list[k]).name != name@,
        decreases schemes@.len() - i,
    {
        assert(list[i as int].name == schemes@[i as int].name@);
        if same(schemes[i].name.as_str(), name) {
            proof {
                lemma_place_is(list, name@, i as int);
            }
            return Some(i);
        }
        i = i + 1;
    }
    proof {
        lemma_place_of(list, name@);
        if place_of(list, name@) is Some {
            assert(list[place_of(list, name@)->0].name != name@);
        }
    }
    None
}

/// A list of schemes with one saved: in the place of the first of its name, or at the end.
pub open spec fn with_scheme(list: Seq<Scheme>, scheme: Scheme) -> Seq<Scheme> {
    match place_of(list, scheme.name) {
        Some(i) => list.update(i, scheme),
        None => list.push(scheme),
    }
}

/// Whether a typed name can be that of a scheme.
pub open spec fn is_scheme_name(typed: Seq<char>) -> bool {
    trimmed(typed).len() > 0 && trimmed(typed) != NO_SCHEME@
}

/// Saves what is showing as a scheme under a typed name, replacing the scheme of that name,
/// and returns the name: the scheme just saved is the one being edited from then on. `None`
/// where the name cannot be one. A device that the machine does not have is left out.
pub fn save_scheme(
    schemes: &mut Vec<LightingScheme>,
    typed: &str,
    keyboard: Option<KeyboardState>,
    light_bar: Option<LightBarState>,
) -> (r: Option<String>)
    ensures
        text_of(r) == (if is_scheme_name(typed@) {
            Some(trimmed(typed@))
        } else {
            None
        }),
        schemes_view(final(schemes)@) == (if is_scheme_name(typed@) {
            with_scheme(
                schemes_view(old(schemes)@),
                (Scheme { name: trimmed(typed@), keyboard, light_bar }),
            )
        } else {
            schemes_view(old(schemes)@)
        }),
{
    let name = trim(typed);
    if chars_of(name.as_str()).len() == 0 || same(name.as_str(), NO_SCHEME) {
        return None;
    }
    let ghost before = schemes_view(schemes@);
    let ghost saved = Scheme { name: name@, keyboard, light_bar };
    let scheme = LightingScheme { name: name.clone(), keyboard, light_bar };
    assert(scheme_view(scheme) == saved);
    match find_scheme(schemes, name.as_str()) {
        Some(i) => {
            schemes.set(i, scheme);
            assert(schemes_view(schemes@) =~= before.update(i as int, saved));
        },
        None => {
            schemes.push(scheme);
            assert(schemes_view(schemes@) =~= before.push(saved));
        },
    }
    Some(name)
}

/// The schemes but those of a name.
pub open spec fn schemes_without(list: Seq<Scheme>, name: Seq<char>) -> Seq<Scheme>
    decreases list.len(),
{
    if list.len() == 0 {
        seq![]
    } else {
        let before = schemes_without(list.drop_last(), name);
        if list.last().name == name {
            before
        } else {
            before.push(list.last())
        }
    }
}

/// The bindings but those to a scheme.
pub open spec fn bindings_without_scheme(list: Seq<Binding>, scheme: Seq<char>) -> Seq<Binding>
    decreases list.len(),
{
    if list.len() == 0 {
        seq![]
    } else {
        let before = bindings_without_scheme(list.drop_last(), scheme);
        if list.last().scheme == scheme {
            before
        } else {
            before.push(list.last())
        }
    }
}

/// The bindings but those of a mode.
pub open spec fn bindings_without_mode(list: Seq<Binding>, mode: Seq<char>) -> Seq<Binding>
    decreases list.len(),
{
    if list.len() == 0 {
        seq![]
    } else {
        let before = bindings_without_mode(list.drop_last(), mode);
        if list.last().mode == mode {
            before
        } else {
            before.push(list.last())
        }
    }
}

fn drop_schemes(schemes: &Vec<LightingScheme>, name: &str) -> (r: Vec<LightingScheme>)
    ensures
        schemes_view(r@) == schemes_without(schemes_view(schemes@), name@),
{
    let ghost all = schemes_view(schemes@);
    let mut out: Vec<LightingScheme> = Vec::new();
    let mut i: usize = 0;
    assert(all.take(0) =~= seq![]);
    assert(schemes_view(out@) =~= seq![]);
    while i < schemes.len()
        invariant
            i <= schemes@.len(),
            all == schemes_view(schemes@),
            schemes_view(out@) == schemes_without(all.take(i as int), name@),
        decreases schemes@.len() - i,
    {
        let ghost before = out@;
        assert(all.take(i + 1).drop_last() =~= all.take(i as int));
        assert(all.take(i + 1).last() == all[i as int]);
        if !same(schemes[i].name.as_str(), name) {
            let kept = LightingScheme {
                name: schemes[i].name.clone(),
                keyboard: schemes[i].keyboard,
                light_bar: schemes[i].light_bar,
            };
            out.push(kept);
            assert(schemes_view(out@) =~= schemes_view(before).push(all[i as int]));
        }
        i = i + 1;
    }
    assert(all.take(i as int) =~= all);
    out
}

fn drop_bindings(bindings: &Vec<ModeBinding>, name: &str, by_scheme: bool) -> (r: Vec<ModeBinding>)
    ensures
        bindings_view(r@) == (if by_scheme {
            bindings_without_scheme(bindings_view(bindings@), name@)
        } else {
            bindings_without_mode(bindings_view(bindings@), name@)
        }),
{
    let ghost all = bindings_view(bindings@);
    let mut out: Vec<ModeBinding> = Vec::new();
    let mut i: usize = 0;
    assert(all.take(0) =~= seq![]);
    assert(bindings_view(out@) =~= seq![]);
    while i < bindings.len()
        invariant
            i <= bindings@.len(),
            all == bindings_view(bindings@),
            by_scheme ==> bindings_view(out@) == bindings_without_scheme(
                all.take(i as int),
                name@,
            ),
            !by_scheme ==> bindings_view(out@) == bindings_without_mode(
                all.take(i as int),
                name@,
            ),
        decreases bindings@.len() - i,
    {
        let ghost before = out@;
        assert(all.take(i + 1).drop_last() =~= all.take(i as int));
        assert(all.take(i + 1).last() == all[i as int]);
        let dropped = if by_scheme {
            same(bindings[i].scheme.as_str(), name)
        } else {
            same(bindings[i].mode.as_str(), name)
        };
        if !dropped {
            let kept = ModeBinding {
                mode: bindings[i].mode.clone(),
                scheme: bindings[i].scheme.clone(),
            };
            out.push(kept);
            assert(bindings_view(out@) =~= bindings_view(before).push(all[i as int]));
        }
        i = i + 1;
    }
    assert(all.take(i as int) =~= all);
    out
}

/// Deletes a scheme, together with the bindings to it; it is no longer being edited.
pub fn delete_scheme(
    schemes: &mut Vec<LightingScheme>,
    bindings: &mut Vec<ModeBinding>,
    editing: &mut Option<String>,
    name: &str,
)
    ensures
        schemes_view(final(schemes)@) == schemes_without(schemes_view(old(schemes)@), name@),
        bindings_view(final(bindings)@) == bindings_without_scheme(
            bindings_view(old(bindings)@),
            name@,
        ),
        text_of(*final(editing)) == (if text_of(*old(editing)) == Some(name@) {
            None
        } else {
            text_of(*old(editing))
        }),
{
    *schemes = drop_schemes(schemes, name);
    *bindings = drop_bindings(bindings, name, true);
    let stop = match editing {
        Some(edited) => same(edited.as_str(), name),
        None => false,
    };
    if stop {
        *editing = None;
    }
}

/// The scheme bound to a mode: the first binding of the mode says.
pub open spec fn scheme_for(list: Seq<Binding>, mode: Seq<char>) -> Option<Seq<char>>
    decreases list.len(),
{
    if list.len() == 0 {
        None
    } else {
        match scheme_for(list.drop_last(), mode) {
            Some(scheme) => Some(scheme),
            None => if list.last().mode == mode {
                Some(list.last().scheme)
            } else {
                None
            },
        }
    }
}

/// The scheme bound to a mode.
pub fn bound_scheme(bindings: &Vec<ModeBinding>, mode: &str) -> (r: Option<String>)
    ensures
        text_of(r) == scheme_for(bindings_view(bindings@), mode@),
{
    let ghost all = bindings_view(bindings@);
    let mut found: Option<String> = None;
    let mut i: usize = 0;
    assert(all.take(0) =~= seq![]);
    while i < bindings.len()
        invariant
            i <= bindings@.len(),
            all == bindings_view(bindings@),
            text_of(found) == scheme_for(all.take(i as int), mode@),
        decreases bindings@.len() - i,
    {
        assert(all.take(i + 1).drop_last() =~= all.take(i as int));
        assert(all.take(i + 1).last() == all[i as int]);
        if found.is_none() && same(bindings[i].mode.as_str(), mode) {
            found = Some(bindings[i].scheme.clone());
        }
        i = i + 1;
    }
    assert(all.take(i as int) =~= all);
    found
}

/// The options of a mode's list: no scheme, and then the schemes.
pub open spec fn options_of(names: Seq<Seq<char>>) -> Seq<Seq<char>> {
    seq![NO_SCHEME@] + names
}

/// The options of a mode's list: no scheme, and then the schemes.
pub fn binding_options(names: &Vec<String>) -> (r: Vec<String>)
    ensures
        texts(r@) == options_of(texts(names@)),
{
    let mut out: Vec<String> = Vec::new();
    out.push(NO_SCHEME.to_owned());
    let mut i: usize = 0;
    assert(texts(out@) =~= seq![NO_SCHEME@] + texts(names@).take(0));
    while i < names.len()
        invariant
            i <= names@.len(),
            texts(out@) == seq![NO_SCHEME@] + texts(names@).take(i as int),
        decreases names@.len() - i,
    {
        let ghost before = texts(out@);
        out.push(names[i].clone());
        assert(texts(out@) =~= before.push(names@[i as int]@));
        assert(texts(names@).take(i + 1) =~= texts(names@).take(i as int).push(names@[i as int]@));
        assert(texts(out@) =~= seq![NO_SCHEME@] + texts(names@).take(i + 1));
        i = i + 1;
    }
    assert(texts(names@).take(i as int) =~= texts(names@));
    out
}

/// The option that shows a mode's binding: the scheme's, or the first where there is none or
/// the scheme is gone.
pub fn selected_option(bindings: &Vec<ModeBinding>, options: &Vec<String>, mode: &str) -> (r: usize)
    requires
        options@.len() > 0,
    ensures
        r < options@.len(),
        match scheme_for(bindings_view(bindings@), mode@) {
            None => r == 0,
            Some(scheme) => if texts(options@).contains(scheme) {
                options@[r as int]@ == scheme && forall|k: int|
                    0 <= k < r ==> (#[trigger] options@[k])@ != scheme
            } else {
                r == 0
            },
        },
{
    match bound_scheme(bindings, mode) {
        None => 0,
        Some(scheme) => {
            let mut i: usize = 0;
            while i < options.len()
                invariant
                    i <= options@.len(),
                    options@.len() > 0,
                    scheme_for(bindings_view(bindings@), mode@) == Some(scheme@),
                    forall|k: int| 0 <= k < i ==> (#[trigger] options@[k])@ != scheme@,
                decreases options@.len() - i,
            {
                if same(options[i].as_str(), scheme.as_str()) {
                    assert(texts(options@)[i as int] == scheme@);
                    return i;
                }
                i = i + 1;
            }
            proof {
                if texts(options@).contains(scheme@) {
                    let k = choose|k: int|
                        0 <= k < options@.len() && texts(options@)[k] == scheme@;
                    assert(options@[k]@ == scheme@);
                }
            }
            0
        },
    }
}

/// Binds a mode to the option that was picked; the first option unbinds it.
pub fn bind_mode(bindings: &mut Vec<ModeBinding>, options: &Vec<String>, mode: &str, index: usize)
    ensures
        bindings_view(final(bindings)@) == (if 0 < index < options@.len() {
            bindings_without_mode(bindings_view(old(bindings)@), mode@).push(
                (Binding { mode: mode@, scheme: options@[index as int]@ }),
            )
        } else {
            bindings_without_mode(bindings_view(old(bindings)@), mode@)
        }),
{
    let mut kept = drop_bindings(bindings, mode, false);
    if index > 0 && index < options.len() {
        let ghost before = bindings_view(kept@);
        kept.push(ModeBinding { mode: mode.to_owned(), scheme: options[index].clone() });
        assert(bindings_view(kept@) =~= before.push(
            (Binding { mode: mode@, scheme: options@[index as int]@ }),
        ));
    }
    *bindings = kept;
}

/// One half of a scheme.
#[derive(Debug, Clone, Copy, PartialEq, Eq, Structural)]
pub enum Half {
    Keyboard(KeyboardState),
    LightBar(LightBarState),
}

/// A scheme with one half replaced.
pub open spec fn with_half(scheme: Scheme, half: Half) -> Scheme {
    match half {
        Half::Keyboard(state) => Scheme { keyboard: Some(state), ..scheme },
        Half::LightBar(state) => Scheme { light_bar: Some(state), ..scheme },
    }
}

/// A list of schemes with one half of the scheme of a name replaced.
pub open spec fn edited_schemes(list: Seq<Scheme>, name: Seq<char>, half: Half) -> Seq<Scheme> {
    match place_of(list, name) {
        Some(i) => list.update(i, with_half(list[i], half)),
        None => list,
    }
}

fn store_half(schemes: &mut Vec<LightingScheme>, name: &str, half: Half)
    ensures
        schemes_view(final(schemes)@) == edited_schemes(
            schemes_view(old(schemes)@),
            name@,
            half,
        ),
{
    let ghost before = schemes_view(schemes@);
    if let Some(i) = find_scheme(schemes, name) {
        let edited = match half {
            Half::Keyboard(state) => LightingScheme {
                name: schemes[i].name.clone(),
                keyboard: Some(state),
                light_bar: schemes[i].light_bar,
            },
            Half::LightBar(state) => LightingScheme {
                name: schemes[i].name.clone(),
                keyboard: schemes[i].keyboard,
                light_bar: Some(state),
            },
        };
        let ghost e = scheme_view(edited);
        assert(e == with_half(before[i as int], half));
        schemes.set(i, edited);
        assert(schemes_view(schemes@) =~= before.update(i as int, e));
    }
}

/// Writes what was just applied into the scheme being edited, if there is one.
pub fn store_into_edited_scheme(
    schemes: &mut Vec<LightingScheme>,
    editing: &Option<String>,
    half: Half,
)
    ensures
        schemes_view(final(schemes)@) == (match editing {
            Some(name) => edited_schemes(schemes_view(old(schemes)@), name@, half),
            None => schemes_view(old(schemes)@),
        }),
{
    if let Some(name) = editing {
        store_half(schemes, name.as_str(), half);
    }
}

/// Writes what was just applied into the scheme bound to the machine's current mode, so that
/// it is not undone when that mode is entered again.
pub fn store_into_bound_scheme(
    schemes: &mut Vec<LightingScheme>,
    bindings: &Vec<ModeBinding>,
    current_mode: &Option<String>,
    half: Half,
)
    ensures
        schemes_view(final(schemes)@) == (match current_mode {
            Some(mode) => match scheme_for(bindings_view(bindings@), mode@) {
                Some(name) => edited_schemes(schemes_view(old(schemes)@), name, half),
                None => schemes_view(old(schemes)@),
            },
            None => schemes_view(old(schemes)@),
        }),
{
    if let Some(mode) = current_mode {
        if let Some(name) = bound_scheme(bindings, mode.as_str()) {
            store_half(schemes, name.as_str(), half);
        }
    }
}

/// The schemes once one half was applied: it is written into the scheme being edited, and then
/// into the one bound to the machine's current mode.
pub open spec fn schemes_after_applying(
    list: Seq<Scheme>,
    bindings: Seq<Binding>,
    editing: Option<Seq<char>>,
    current_mode: Option<Seq<char>>,
    half: Half,
) -> Seq<Scheme> {
    let edited = match editing {
        Some(name) => edited_schemes(list, name, half),
        None => list,
    };
    match current_mode {
        Some(mode) => match scheme_for(bindings, mode) {
            Some(name) => edited_schemes(edited, name, half),
            None => edited,
        },
        None => edited,
    }
}

/// Remembers a half whose write succeeded wherever it is kept: as what its device shows, in
/// the scheme being edited, and in the scheme bound to the machine's current mode. Nothing
/// else changes.
pub fn remember_applied(
    config: &mut AppConfig,
    editing: &Option<String>,
    current_mode: &Option<String>,
    half: Half,
)
    ensures
        *final(config) == (AppConfig {
            keyboard_rgb: match half {
                Half::Keyboard(state) => Some(state),
                Half::LightBar(_) => old(config).keyboard_rgb,
            },
            light_bar: match half {
                Half::Keyboard(_) => old(config).light_bar,
                Half::LightBar(state) => Some(state),
            },
            lighting_schemes: final(config).lighting_schemes,
            ..*old(config)
        }),
        schemes_view(final(config).lighting_schemes@) == schemes_after_applying(
            schemes_view(old(config).lighting_schemes@),
            bindings_view(old(config).mode_bindings@),
            text_of(*editing),
            text_of(*current_mode),
            half,
        ),
{
    match half {
        Half::Keyboard(state) => {
            config.keyboard_rgb = Some(state);
        },
        Half::LightBar(state) => {
            config.light_bar = Some(state);
        },
    }
    store_into_edited_scheme(&mut config.lighting_schemes, editing, half);
    store_into_bound_scheme(
        &mut config.lighting_schemes,
        &config.mode_bindings,
        current_mode,
        half,
    );
}

/// Whether the light bar has to be woken: after it was off, or where it was never set.
pub open spec fn needs_wake(previous: Option<LightBarState>) -> bool {
    previous is None || previous->0.mode == LightBarMode::Off
}

/// Whether the light bar has to be woken: after it was off, or where it was never set.
pub fn wake_needed(previous: &Option<LightBarState>) -> (r: bool)
    ensures
        r == needs_wake(*previous),
{
    match previous {
        Some(state) => state.mode == LightBarMode::Off,
        None => true,
    }
}

/// What applying a scheme sends to the devices the machine has.
pub struct SchemeOrder {
    pub keyboard: Option<(KeyboardState, Request)>,
    pub light_bar: Option<(LightBarState, Vec<[u8; 16]>)>,
}

/// Whether an order is what applying a scheme takes.
pub open spec fn orders(
    r: SchemeOrder,
    scheme: Scheme,
    previous: Option<LightBarState>,
    have_keyboard: bool,
    have_bar: bool,
) -> bool {
    &&& match scheme.keyboard {
        Some(state) if have_keyboard => r.keyboard is Some && (r.keyboard->0).0 == state
            && (r.keyboard->0).1.asks(Action::ChiconyEffect, keyboard_rgb::effect_args(state)),
        _ => r.keyboard is None,
    }
    &&& match scheme.light_bar {
        Some(state) if have_bar => r.light_bar is Some && (r.light_bar->0).0 == state
            && light_bar::frames_view((r.light_bar->0).1@) == light_bar::frames_to_apply(
            state,
            needs_wake(previous),
        ),
        _ => r.light_bar is None,
    }
}

/// What applying the scheme of a name sends; `None` where there is no such scheme. `previous`
/// is what the light bar was last set to.
pub fn apply_scheme_by_name(
    schemes: &Vec<LightingScheme>,
    name: &str,
    previous: &Option<LightBarState>,
    have_keyboard: bool,
    have_bar: bool,
) -> (r: Option<SchemeOrder>)
    ensures
        match place_of(schemes_view(schemes@), name@) {
            Some(i) => r is Some && orders(
                r->0,
                schemes_view(schemes@)[i],
                *previous,
                have_keyboard,
                have_bar,
            ),
            None => r is None,
        },
{
    let i = match find_scheme(schemes, name) {
        None => {
            return None;
        },
        Some(i) => i,
    };
    let keyboard = match schemes[i].keyboard {
        Some(state) => if have_keyboard {
            Some((state, keyboard_rgb::apply(&state)))
        } else {
            None
        },
        None => None,
    };
    let bar = match schemes[i].light_bar {
        Some(state) => match light_bar::apply(&state, wake_needed(previous), have_bar) {
            Ok(frames) => Some((state, frames)),
            Err(_) => None,
        },
        None => None,
    };
    Some(SchemeOrder { keyboard, light_bar: bar })
}

/// What is remembered as applied once an order was carried out: each half only where its
/// write succeeded.
pub fn record_applied(
    order: &SchemeOrder,
    keyboard_ok: bool,
    bar_ok: bool,
    keyboard: &mut Option<KeyboardState>,
    light_bar: &mut Option<LightBarState>,
)
    ensures
        *final(keyboard) == (if keyboard_ok && order.keyboard is Some {
            Some((order.keyboard->0).0)
        } else {
            *old(keyboard)
        }),
        *final(light_bar) == (if bar_ok && order.light_bar is Some {
            Some((order.light_bar->0).0)
        } else {
            *old(light_bar)
        }),
        // A device whose write failed still shows what it showed.
        !keyboard_ok ==> *final(keyboard) == *old(keyboard),
        !bar_ok ==> *final(light_bar) == *old(light_bar),
        keyboard_ok && order.keyboard is Some ==> *final(keyboard) == Some((order.keyboard->0).0),
        bar_ok && order.light_bar is Some ==> *final(light_bar) == Some((order.light_bar->0).0),
{
    if keyboard_ok {
        if let Some(sent) = &order.keyboard {
            *keyboard = Some(sent.0);
        }
    }
    if bar_ok {
        if let Some(sent) = &order.light_bar {
            *light_bar = Some(sent.0);
        }
    }
}

/// What a mode change sends: the scheme bound to the mode, if there is one.
pub fn apply_scheme_for_mode(
    schemes: &Vec<LightingScheme>,
    bindings: &Vec<ModeBinding>,
    mode: &str,
    previous: &Option<LightBarState>,
    have_keyboard: bool,
    have_bar: bool,
) -> (r: Option<SchemeOrder>)
    ensures
        match scheme_for(bindings_view(bindings@), mode@) {
            Some(name) => match place_of(schemes_view(schemes@), name) {
                Some(i) => r is Some && orders(
                    r->0,
                    schemes_view(schemes@)[i],
                    *previous,
                    have_keyboard,
                    have_bar,
                ),
                None => r is None,
            },
            None => r is None,
        },
{
    match bound_scheme(bindings, mode) {
        Some(name) => apply_scheme_by_name(
            schemes,
            name.as_str(),
            previous,
            have_keyboard,
            have_bar,
        ),
        None => None,
    }
}

/// A scheme that was saved is found under its name, as it was saved.
pub proof fn law_saved_scheme_is_found(list: Seq<Scheme>, scheme: Scheme)
    ensures
        place_of(with_scheme(list, scheme), scheme.name) is Some,
        with_scheme(list, scheme)[place_of(with_scheme(list, scheme), scheme.name)->0] == scheme,
{
    lemma_place_of(list, scheme.name);
    let after = with_scheme(list, scheme);
    match place_of(list, scheme.name) {
        Some(i) => {
            assert forall|k: int| 0 <= k < i implies (#[trigger] after[k]).name != scheme.name by {
                assert(after[k] == list[k]);
            }
            lemma_place_is(after, scheme.name, i);
        },
        None => {
            assert forall|k: int| 0 <= k < list.len() implies (#[trigger] after[k]).name
                != scheme.name by {
                assert(after[k] == list[k]);
            }
            lemma_place_is(after, scheme.name, list.len() as int);
        },
    }
}

/// Saving a scheme leaves every scheme of another name as it was.
pub proof fn law_saving_leaves_other_schemes(list: Seq<Scheme>, scheme: Scheme, i: int)
    requires
        0 <= i < list.len(),
        list[i].name != scheme.name,
    ensures
        with_scheme(list, scheme)[i] == list[i],
{
    lemma_place_of(list, scheme.name);
}

/// A scheme that was deleted is gone, and so is every binding to it.
pub proof fn law_deleted_scheme_is_gone(list: Seq<Scheme>, bindings: Seq<Binding>, name: Seq<char>)
    ensures
        forall|i: int|
            0 <= i < schemes_without(list, name).len() ==> (#[trigger] schemes_without(
                list,
                name,
            )[i]).name != name,
        forall|i: int|
            0 <= i < bindings_without_scheme(bindings, name).len() ==> (
            #[trigger] bindings_without_scheme(bindings, name)[i]).scheme != name,
    decreases list.len(), bindings.len(),
{
    if list.len() > 0 {
        law_deleted_scheme_is_gone(list.drop_last(), bindings, name);
        let before = schemes_without(list.drop_last(), name);
        assert forall|i: int| 0 <= i < schemes_without(list, name).len() implies (
        #[trigger] schemes_without(list, name)[i]).name != name by {
            if i < before.len() {
                assert(schemes_without(list, name)[i] == before[i]);
            }
        }
    } else if bindings.len() > 0 {
        law_deleted_scheme_is_gone(list, bindings.drop_last(), name);
        let before = bindings_without_scheme(bindings.drop_last(), name);
        assert forall|i: int| 0 <= i < bindings_without_scheme(bindings, name).len() implies (
        #[trigger] bindings_without_scheme(bindings, name)[i]).scheme != name by {
            if i < before.len() {
                assert(bindings_without_scheme(bindings, name)[i] == before[i]);
            }
        }
    }
}

proof fn lemma_unbound(list: Seq<Binding>, mode: Seq<char>)
    ensures
        scheme_for(bindings_without_mode(list, mode), mode) is None,
    decreases list.len(),
{
    if list.len() > 0 {
        lemma_unbound(list.drop_last(), mode);
        let before = bindings_without_mode(list.drop_last(), mode);
        if list.last().mode != mode {
            assert(before.push(list.last()).drop_last() =~= before);
        }
    }
}

proof fn lemma_other_binding_stays(list: Seq<Binding>, mode: Seq<char>, other: Seq<char>)
    requires
        other != mode,
    ensures
        scheme_for(bindings_without_mode(list, mode), other) == scheme_for(list, other),
    decreases list.len(),
{
    if list.len() > 0 {
        lemma_other_binding_stays(list.drop_last(), mode, other);
        let before = bindings_without_mode(list.drop_last(), mode);
        if list.last().mode != mode {
            assert(before.push(list.last()).drop_last() =~= before);
        }
    }
}

/// A mode that was bound to a scheme has that scheme and no other, and no other mode is
/// touched; a mode that was unbound has none.
pub proof fn law_binding_a_mode(
    list: Seq<Binding>,
    mode: Seq<char>,
    scheme: Seq<char>,
    other: Seq<char>,
)
    requires
        other != mode,
    ensures
        scheme_for(bindings_without_mode(list, mode), mode) is None,
        scheme_for(bindings_without_mode(list, mode).push((Binding { mode, scheme })), mode)
            == Some(scheme),
        scheme_for(bindings_without_mode(list, mode), other) == scheme_for(list, other),
        scheme_for(bindings_without_mode(list, mode).push((Binding { mode, scheme })), other)
            == scheme_for(list, other),
{
    lemma_unbound(list, mode);
    lemma_other_binding_stays(list, mode, other);
    let kept = bindings_without_mode(list, mode);
    assert(kept.push(Binding { mode, scheme }).drop_last() =~= kept);
}

proof fn lemma_edited_place(list: Seq<Scheme>, name: Seq<char>, half: Half, other: Seq<char>)
    ensures
        place_of(edited_schemes(list, name, half), other) == place_of(list, other),
{
    let after = edited_schemes(list, name, half);
    lemma_place_of(list, name);
    lemma_place_of(list, other);
    assert forall|k: int| 0 <= k < list.len() implies (#[trigger] after[k]).name
        == list[k].name by {}
    match place_of(list, other) {
        Some(i) => {
            assert forall|k: int| 0 <= k < i implies (#[trigger] after[k]).name != other by {
                assert(list[k].name != other);
            }
            lemma_place_is(after, other, i);
        },
        None => {
            lemma_place_of(after, other);
            if place_of(after, other) is Some {
                let i = place_of(after, other)->0;
                assert(after[i].name == list[i].name);
            }
        },
    }
}

/// What was applied sticks: a scheme that is being edited, or that is bound to the machine's
/// current mode, holds it from then on, so that entering the mode again does not undo it.
pub proof fn law_applied_half_sticks(
    list: Seq<Scheme>,
    bindings: Seq<Binding>,
    editing: Option<Seq<char>>,
    current_mode: Option<Seq<char>>,
    half: Half,
    name: Seq<char>,
)
    requires
        editing == Some(name) || (current_mode is Some && scheme_for(bindings, current_mode->0)
            == Some(name)),
        place_of(list, name) is Some,
    ensures
        ({
            let after = schemes_after_applying(list, bindings, editing, current_mode, half);
            let place = place_of(list, name)->0;
            &&& place_of(after, name) == Some(place)
            &&& match half {
                Half::Keyboard(state) => after[place].keyboard == Some(state),
                Half::LightBar(state) => after[place].light_bar == Some(state),
            }
        }),
{
    let edited = match editing {
        Some(first) => edited_schemes(list, first, half),
        None => list,
    };
    lemma_place_of(list, name);
    match editing {
        Some(first) => {
            lemma_edited_place(list, first, half, name);
            lemma_place_of(list, first);
        },
        None => {},
    }
    match current_mode {
        Some(mode) => match scheme_for(bindings, mode) {
            Some(bound) => {
                lemma_edited_place(edited, bound, half, name);
                lemma_place_of(edited, bound);
            },
            None => {},
        },
        None => {},
    }
}

/// Editing one half of a scheme leaves the other half, and every other scheme, as it was.
pub proof fn law_editing_touches_one_half(list: Seq<Scheme>, name: Seq<char>, half: Half, i: int)
    requires
        0 <= i < list.len(),
    ensures
        edited_schemes(list, name, half).len() == list.len(),
        edited_schemes(list, name, half)[i].name == list[i].name,
        half is Keyboard ==> edited_schemes(list, name, half)[i].light_bar == list[i].light_bar,
        half is LightBar ==> edited_schemes(list, name, half)[i].keyboard == list[i].keyboard,
        place_of(list, name) != Some(i) ==> edited_schemes(list, name, half)[i] == list[i],
{
    lemma_place_of(list, name);
}

/// An order holds what the scheme holds for the devices the machine has, and nothing for the
/// others; the bar is woken where it was off or never set.
pub proof fn law_order_is_the_scheme_for_what_is_there(
    r: SchemeOrder,
    scheme: Scheme,
    previous: Option<LightBarState>,
    have_keyboard: bool,
    have_bar: bool,
)
    requires
        orders(r, scheme, previous, have_keyboard, have_bar),
    ensures
        r.keyboard is Some <==> have_keyboard && scheme.keyboard is Some,
        r.light_bar is Some <==> have_bar && scheme.light_bar is Some,
        r.keyboard is Some ==> (r.keyboard->0).0 == scheme.keyboard->0 && (
        r.keyboard->0).1.action is ChiconyEffect && texts((r.keyboard->0).1.args@)
            == keyboard_rgb::effect_args(scheme.keyboard->0),
        r.light_bar is Some ==> (r.light_bar->0).0 == scheme.light_bar->0,
        r.light_bar is Some && previous is None ==> light_bar::frames_view((r.light_bar->0).1@)
            == light_bar::frames_to_apply(scheme.light_bar->0, true),
        r.light_bar is Some && previous is Some && !(previous->0.mode is Off)
            ==> light_bar::frames_view((r.light_bar->0).1@) == light_bar::frames_to_apply(
            scheme.light_bar->0,
            false,
        ),
        r.light_bar is Some && previous is Some && previous->0.mode is Off
            ==> light_bar::frames_view((r.light_bar->0).1@) == light_bar::frames_to_apply(
            scheme.light_bar->0,
            true,
        ),
{
}

/// The first scheme of a name is the one that counts.
pub proof fn law_first_scheme_of_a_name_is_found(list: Seq<Scheme>, name: Seq<char>)
    ensures
        match place_of(list, name) {
            Some(i) => 0 <= i < list.len() && list[i].name == name && forall|k: int|
                0 <= k < i ==> (#[trigger] list[k]).name != name,
            None => forall|k: int| 0 <= k < list.len() ==> (#[trigger] list[k]).name != name,
        },
{
    lemma_place_of(list, name);
}

/// Deleting a scheme, or unbinding a mode, leaves what does not belong to it in its order.
pub proof fn law_deleting_leaves_the_others(
    list: Seq<Scheme>,
    scheme: Scheme,
    bindings: Seq<Binding>,
    binding: Binding,
    name: Seq<char>,
)
    ensures
        scheme.name != name ==> schemes_without(list.push(scheme), name) == schemes_without(
            list,
            name,
        ).push(scheme),
        binding.scheme != name ==> bindings_without_scheme(bindings.push(binding), name)
            == bindings_without_scheme(bindings, name).push(binding),
        binding.mode != name ==> bindings_without_mode(bindings.push(binding), name)
            == bindings_without_mode(bindings, name).push(binding),
        scheme.name == name ==> schemes_without(list.push(scheme), name) == schemes_without(
            list,
            name,
        ),
{
    assert(list.push(scheme).drop_last() =~= list);
    assert(bindings.push(binding).drop_last() =~= bindings);
}

/// A scheme can go under any name but a blank one and the dash that stands for none; the dash
/// is always the first option, and the schemes follow it.
pub proof fn law_dash_stands_for_no_scheme(typed: Seq<char>, names: Seq<Seq<char>>, i: int)
    ensures
        NO_SCHEME@ == "—"@,
        is_scheme_name(typed) <==> trimmed(typed).len() > 0 && trimmed(typed) != "—"@,
        options_of(names)[0] == "—"@,
        options_of(names).len() == names.len() + 1,
        0 <= i < names.len() ==> options_of(names)[i + 1] == names[i],
{
}

/// A mode's first binding decides which scheme it has.
pub proof fn law_first_binding_decides(list: Seq<Binding>, binding: Binding, mode: Seq<char>)
    ensures
        scheme_for(list, mode) is Some ==> scheme_for(list.push(binding), mode) == scheme_for(
            list,
            mode,
        ),
        scheme_for(list, mode) is None && binding.mode == mode ==> scheme_for(
            list.push(binding),
            mode,
        ) == Some(binding.scheme),
        binding.mode != mode ==> scheme_for(list.push(binding), mode) == scheme_for(list, mode),
        scheme_for(seq![], mode) is None,
{
    assert(list.push(binding).drop_last() =~= list);
}

/// Schemes and bindings are seen as they are, in their order.
pub proof fn law_schemes_are_seen_as_they_are(
    schemes: Seq<LightingScheme>,
    bindings: Seq<ModeBinding>,
    i: int,
)
    ensures
        schemes_view(schemes).len() == schemes.len(),
        bindings_view(bindings).len() == bindings.len(),
        0 <= i < schemes.len() ==> schemes_view(schemes)[i].name == schemes[i].name@
            && schemes_view(schemes)[i].keyboard == schemes[i].keyboard
            && schemes_view(schemes)[i].light_bar == schemes[i].light_bar,
        0 <= i < bindings.len() ==> bindings_view(bindings)[i].mode == bindings[i].mode@
            && bindings_view(bindings)[i].scheme == bindings[i].scheme@,
{
}

} // verus!
