use obt_server::response::ContentType;
use obt_server::sync::{hunter_sync, stamp, sync_answer, HunterSave, SaveSlots};

fn save(id: &str, name: &str, otomo: &str, slot: u32, short_id: Option<&str>) -> HunterSave {
    HunterSave {
        hunter_id: id.to_string(),
        hunter_name: name.to_string(),
        otomo_name: otomo.to_string(),
        save_slot: slot,
        short_id: short_id.map(|s| s.to_string()),
    }
}

#[test]
fn every_record_gets_the_server_short_id() {
    let request = SaveSlots {
        hunter_save_list: vec![
            save("h-1", "Alma", "Palico", 0, None),
            save("h-2", "Gemma", "Felyne", 1, Some("CLIENT01")),
            save("h-3", "Nata", "", 2, Some("NX8684EC")),
        ],
        using_save_slot: 1,
    };
    let result = hunter_sync(request);
    assert_eq!(result.save_slot_info_list.len(), 3);
    for record in &result.save_slot_info_list {
        assert_eq!(record.short_id.as_deref(), Some("NX8684EC"));
    }
}

#[test]
fn records_keep_their_order_and_other_fields() {
    let request = SaveSlots {
        hunter_save_list: vec![
            save("h-2", "Gemma", "Felyne", 7, Some("X")),
            save("h-1", "Alma", "Palico", 3, None),
            save("h-2", "Gemma", "Felyne", 7, Some("X")),
        ],
        using_save_slot: 3,
    };
    let result = hunter_sync(request);
    let seen: Vec<(&str, &str, &str, u32)> = result
        .save_slot_info_list
        .iter()
        .map(|r| (r.hunter_id.as_str(), r.hunter_name.as_str(), r.otomo_name.as_str(), r.save_slot))
        .collect();
    assert_eq!(
        seen,
        vec![("h-2", "Gemma", "Felyne", 7), ("h-1", "Alma", "Palico", 3), ("h-2", "Gemma", "Felyne", 7)]
    );
}

#[test]
fn invalid_lists_are_always_absent() {
    let result = hunter_sync(SaveSlots {
        hunter_save_list: vec![save("h-1", "Alma", "Palico", 0, None)],
        using_save_slot: 0,
    });
    assert!(result.invalid_save_slot_info_list.is_none());
    assert!(result.invalid_client_hunter_id_list.is_none());
}

#[test]
fn empty_batch_gives_empty_result() {
    let result = hunter_sync(SaveSlots { hunter_save_list: Vec::new(), using_save_slot: 9 });
    assert!(result.save_slot_info_list.is_empty());
    assert!(result.invalid_save_slot_info_list.is_none());
    assert!(result.invalid_client_hunter_id_list.is_none());
}

#[test]
fn stamp_uses_the_configured_short_id() {
    let result = stamp(
        SaveSlots {
            hunter_save_list: vec![save("h-1", "Alma", "Palico", 0, Some("OLD")), save("h-2", "B", "C", 1, None)],
            using_save_slot: 0,
        },
        "ZZ000001",
    );
    assert_eq!(result.save_slot_info_list[0].short_id.as_deref(), Some("ZZ000001"));
    assert_eq!(result.save_slot_info_list[1].short_id.as_deref(), Some("ZZ000001"));
    assert_eq!(result.save_slot_info_list[0].hunter_id, "h-1");
    assert_eq!(result.save_slot_info_list[1].hunter_id, "h-2");
}

#[test]
fn sync_answer_is_200_with_msgpack() {
    let encoded = vec![0x83u8, 0xc0, 0xc0, 0x90];
    let r = sync_answer(encoded.clone());
    assert_eq!(r.status, 200);
    assert_eq!(r.content_type, ContentType::MsgPack);
    assert_eq!(r.content_type.as_str(), "application/msgpack");
    assert_eq!(r.body, encoded);
    let empty = sync_answer(Vec::new());
    assert_eq!(empty.status, 200);
    assert!(empty.body.is_empty());
}
