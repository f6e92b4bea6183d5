use vstd::prelude::*;
use crate::response::{ContentType, Response};

verus! {

/// One hunter's save, as the client sends it and as it is sent back.
#[derive(Debug)]
pub struct HunterSave {
    pub hunter_id: String,
    pub hunter_name: String,
    pub otomo_name: String,
    pub save_slot: u32,
    pub short_id: Option<String>,
}

/// What a `HunterSave` holds.
pub ghost struct HunterSaveView {
    pub hunter_id: Seq<char>,
    pub hunter_name: Seq<char>,
    pub otomo_name: Seq<char>,
    pub save_slot: u32,
    pub short_id: Option<Seq<char>>,
}

impl View for HunterSave {
    type V = HunterSaveView;

    open spec fn view(&self) -> HunterSaveView {
        HunterSaveView {
            hunter_id: self.hunter_id@,
            hunter_name: self.hunter_name@,
            otomo_name: self.otomo_name@,
            save_slot: self.save_slot,
            short_id: match self.short_id {
                Some(id) => Some(id@),
                None => None,
            },
        }
    }
}

/// The request of the synchronisation endpoint: the client's saves and the slot in use.
#[derive(Debug)]
pub struct SaveSlots {
    pub hunter_save_list: Vec<HunterSave>,
    pub using_save_slot: u32,
}

/// The answer of the synchronisation endpoint.
#[derive(Debug)]
pub struct SyncSaveSlots {
    pub invalid_save_slot_info_list: Option<Vec<HunterSave>>,
    pub invalid_client_hunter_id_list: Option<String>,
    pub save_slot_info_list: Vec<HunterSave>,
}

/// What each save in a list holds, in order.
pub open spec fn saves_view(saves: Seq<HunterSave>) -> Seq<HunterSaveView> {
    saves.map_values(|s: HunterSave| s@)
}

/// The short identifier that the server assigns to every hunter.
pub open spec fn assigned_short_id() -> Seq<char> {
    "NX8684EC"@
}

/// A save with its short identifier set to `short_id`, whatever it held before.
pub open spec fn stamped(save: HunterSaveView, short_id: Seq<char>) -> HunterSaveView {
    HunterSaveView { short_id: Some(short_id), ..save }
}

/// A list of saves, each stamped with `short_id`.
pub open spec fn stamped_all(saves: Seq<HunterSaveView>, short_id: Seq<char>) -> Seq<
    HunterSaveView,
> {
    saves.map_values(|s: HunterSaveView| stamped(s, short_id))
}

/// Stamps every save with `short_id` and answers with the list, in the
/// client's order and with nothing reported as invalid.
pub fn stamp(save_slots: SaveSlots, short_id: &str) -> (r: SyncSaveSlots)
    ensures
        r.invalid_save_slot_info_list is None,
        r.invalid_client_hunter_id_list is None,
        saves_view(r.save_slot_info_list@) == stamped_all(
            saves_view(save_slots.hunter_save_list@),
            short_id@,
        ),
{
    let mut saves = save_slots.hunter_save_list;
    let ghost before = saves_view(saves@);
    let mut i: usize = 0;
    while i < saves.len()
        invariant
            i <= saves.len(),
            saves@.len() == before.len(),
            forall|j: int| 0 <= j < i ==> (#[trigger] saves@[j])@ == stamped(before[j], short_id@),
            forall|j: int| i <= j < saves.len() ==> (#[trigger] saves@[j])@ == before[j],
        decreases saves.len() - i,
    {
        saves[i].short_id = Some(short_id.to_owned());
        i += 1;
    }
    assert(saves_view(saves@) =~= stamped_all(before, short_id@));
    SyncSaveSlots {
        invalid_save_slot_info_list: None,
        invalid_client_hunter_id_list: None,
        save_slot_info_list: saves,
    }
}

/// The synchronisation transform: every save gets the server's short
/// identifier, overwriting what the client sent.
pub fn hunter_sync(save_slots: SaveSlots) -> (r: SyncSaveSlots)
    ensures
        r.invalid_save_slot_info_list is None,
        r.invalid_client_hunter_id_list is None,
        saves_view(r.save_slot_info_list@) == stamped_all(
            saves_view(save_slots.hunter_save_list@),
            assigned_short_id(),
        ),
{
    stamp(save_slots, "NX8684EC")
}

/// The answer of the synchronisation endpoint: `200 OK` with the encoded
/// result as a MessagePack body.
pub fn sync_answer(body: Vec<u8>) -> (r: Response)
    ensures
        r.status == 200,
        r.content_type == ContentType::MsgPack,
        r.body@ == body@,
{
    Response::ok(ContentType::MsgPack, body)
}

/// Stamping keeps the number of saves and their order, and changes nothing
/// of a save but its short identifier.
pub proof fn lemma_stamped_all_keeps_records(saves: Seq<HunterSaveView>, short_id: Seq<char>)
    ensures
        stamped_all(saves, short_id).len() == saves.len(),
        forall|i: int|
            0 <= i < saves.len() ==> {
                let out = #[trigger] stamped_all(saves, short_id)[i];
                &&& out.short_id == Some(short_id)
                &&& out.hunter_id == saves[i].hunter_id
                &&& out.hunter_name == saves[i].hunter_name
                &&& out.otomo_name == saves[i].otomo_name
                &&& out.save_slot == saves[i].save_slot
            },
{
}

} // verus!
