//! Trusted boundary to the i-wanna-build level container library: the
//! level/object/event/param types are opaque here, so uninterpreted view
//! functions name what each value holds, and each constructor the pipeline
//! needs is a thin wrapper whose contract says, over those views, exactly
//! what it builds.

use vstd::prelude::*;

verus! {

#[verifier::external_type_specification]
#[verifier::external_body]
pub struct ExLevel(i_wanna_build::Level);

#[verifier::external_type_specification]
#[verifier::external_body]
pub struct ExObject(i_wanna_build::map::Object);

#[verifier::external_type_specification]
#[verifier::external_body]
pub struct ExEvent(i_wanna_build::map::Event);

#[verifier::external_type_specification]
#[verifier::external_body]
pub struct ExParam(i_wanna_build::map::Param);

/// What a parameter holds: its key and value strings.
#[verifier::ext_equal]
pub struct ParamView {
    pub key: Seq<char>,
    pub value: Seq<char>,
}

/// What an event holds: its identifier, parameters, and nested events.
#[verifier::ext_equal]
pub struct EventView {
    pub id: u16,
    pub params: Seq<ParamView>,
    pub nested_events: Seq<EventView>,
}

/// What an object holds: its type, position, whether the optional fields are
/// set, its parameters, and its events.
#[verifier::ext_equal]
pub struct ObjectView {
    pub type_id: u16,
    pub x: u32,
    pub y: u32,
    pub has_rotation: bool,
    pub has_slot: bool,
    pub has_nested_object: bool,
    pub params: Seq<ParamView>,
    pub events: Seq<EventView>,
}

/// What a level holds: its name, how many maps it carries, and the first
/// map's background color encoding and object list.
#[verifier::ext_equal]
pub struct LevelView {
    pub name: Seq<char>,
    pub map_count: nat,
    pub colors: Seq<char>,
    pub objects: Seq<ObjectView>,
}

pub uninterp spec fn param_view(p: i_wanna_build::map::Param) -> ParamView;

pub uninterp spec fn event_view(e: i_wanna_build::map::Event) -> EventView;

pub uninterp spec fn object_view(o: i_wanna_build::map::Object) -> ObjectView;

pub uninterp spec fn level_view(l: i_wanna_build::Level) -> LevelView;

/// Relies on i_wanna_build::map::Param::new: stores the two given strings
/// unchanged.
#[verifier::external_body]
pub(crate) fn mk_param(key: &str, value: &str) -> (p: i_wanna_build::map::Param)
    ensures
        param_view(p) == (ParamView { key: key@, value: value@ }),
{
    i_wanna_build::map::Param::new(key, value)
}

/// Relies on i_wanna_build::map::Event's public fields: builds an event with
/// exactly the given identifier, parameters and nested events.
#[verifier::external_body]
pub(crate) fn mk_event(
    id: u16,
    params: Vec<i_wanna_build::map::Param>,
    nested_events: Vec<i_wanna_build::map::Event>,
) -> (e: i_wanna_build::map::Event)
    ensures
        event_view(e) == (EventView {
            id,
            params: params@.map_values(|p: i_wanna_build::map::Param| param_view(p)),
            nested_events: nested_events@.map_values(
                |n: i_wanna_build::map::Event| event_view(n),
            ),
        }),
{
    i_wanna_build::map::Event { id, params, nested_events }
}

/// Relies on i_wanna_build::map::Object's public fields: builds an object at
/// `(x, y)` with exactly the given parameters and events, and no rotation,
/// slot or nested object.
#[verifier::external_body]
pub(crate) fn mk_object(
    type_id: u16,
    x: u32,
    y: u32,
    params: Vec<i_wanna_build::map::Param>,
    events: Vec<i_wanna_build::map::Event>,
) -> (o: i_wanna_build::map::Object)
    ensures
        object_view(o) == (ObjectView {
            type_id,
            x,
            y,
            has_rotation: false,
            has_slot: false,
            has_nested_object: false,
            params: params@.map_values(|p: i_wanna_build::map::Param| param_view(p)),
            events: events@.map_values(|e: i_wanna_build::map::Event| event_view(e)),
        }),
{
    i_wanna_build::map::Object {
        type_id,
        x,
        y,
        slot: None,
        rotation: None,
        events,
        params,
        nested_object: None,
    }
}

/// Relies on i_wanna_build::generic_level: a level carrying the given name
/// and exactly one map, whose background colors field is replaced by the
/// given encoding and whose object list starts empty.
#[verifier::external_body]
pub(crate) fn new_level(name: &str, colors: &str) -> (l: i_wanna_build::Level)
    ensures
        level_view(l) == (LevelView { name: name@, map_count: 1, colors: colors@, objects: seq![] }),
{
    let mut level = i_wanna_build::generic_level(name);
    level.maps[0].head.colors = colors.into();
    level
}

/// Relies on i_wanna_build::Level's public fields and Vec::push: appends the
/// object to the level's first map, which must exist, and changes nothing
/// else the view describes.
#[verifier::external_body]
pub(crate) fn push_object(level: &mut i_wanna_build::Level, object: i_wanna_build::map::Object)
    requires
        level_view(*old(level)).map_count >= 1,
    ensures
        level_view(*final(level)) == (LevelView {
            name: level_view(*old(level)).name,
            map_count: level_view(*old(level)).map_count,
            colors: level_view(*old(level)).colors,
            objects: level_view(*old(level)).objects.push(object_view(object)),
        }),
{
    level.maps[0].objects.push(object);
}

} // verus!
