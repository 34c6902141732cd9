use frameseq::components::Components;
use frameseq::error::SequenceError;
use frameseq::item::Item;
use frameseq::operation::FileOperation;
use frameseq::operation::OperationPlan;
use frameseq::sequence::FileSequence;

fn plain_item(frame: u32, padding: usize) -> Item {
    Item::new(
        "shot".to_string(),
        frame,
        padding,
        "png".to_string(),
        Some("_".to_string()),
        None,
        None,
    )
}

#[test]
fn empty_sequence_is_rejected() {
    let r = FileSequence::new(vec![]);
    assert!(matches!(r, Err(SequenceError::EmptySequence)));
}

#[test]
fn single_item_sequence_succeeds() {
    let s = FileSequence::new(vec![plain_item(1, 4)]).unwrap();
    assert_eq!(s.len(), 1);
    assert!(!s.is_empty());
}

#[test]
fn padding_round_trip() {
    let item = plain_item(7, 3);
    assert_eq!(item.frame_string, "007");
    assert_eq!(item.frame_number(), 7);
    assert_eq!(item.padding(), 3);
}

#[test]
fn padding_narrower_than_digits_keeps_digits() {
    let item = plain_item(12345, 3);
    assert_eq!(item.frame_string, "12345");
    assert_eq!(item.frame_number(), 12345);
    assert_eq!(item.padding(), 5);
}

#[test]
fn filename_format_is_exact() {
    let item = Item::new(
        "shot".to_string(),
        12,
        4,
        "png".to_string(),
        Some("_".to_string()),
        Some("_final".to_string()),
        Some("renders".to_string()),
    );
    assert_eq!(item.filename(), "shot_0012_final.png");
    assert_eq!(item.path(), "renders/shot_0012_final.png");
}

#[test]
fn item_without_directory_has_bare_path() {
    let item = plain_item(3, 2);
    assert_eq!(item.path(), "shot_03.png");
}

#[test]
fn empty_delimiter_and_suffix_are_normalized_to_absent() {
    let item = Item::new(
        "a".to_string(),
        1,
        1,
        "png".to_string(),
        Some(String::new()),
        Some(String::new()),
        None,
    );
    assert_eq!(item.delimiter, None);
    assert_eq!(item.suffix, None);
    assert_eq!(item.filename(), "a1.png");
}

#[test]
fn noop_rename_produces_empty_plan() {
    let item = plain_item(7, 3);
    let same = Components::new()
        .prefix("shot")
        .delimiter("_")
        .padding(3)
        .extension("png")
        .frame_number(7);
    let planned = item.rename(same);
    assert_eq!(planned.plan.operations.len(), 0);
    assert_eq!(planned.proposed.path(), item.path());
}

#[test]
fn rename_with_new_prefix_emits_one_operation() {
    let item = plain_item(7, 3);
    let planned = item.rename(Components::new().prefix("take"));
    assert_eq!(planned.plan.operations.len(), 1);
    assert_eq!(
        planned.plan.operations[0],
        FileOperation::Rename {
            source: "shot_007.png".to_string(),
            destination: "take_007.png".to_string(),
        }
    );
    assert_eq!(planned.proposed.prefix, "take");
    assert_eq!(planned.proposed.frame_number(), 7);
}

#[test]
fn conflict_detection_against_existing_paths() {
    let item = plain_item(7, 3);
    let planned = item.rename(Components::new().prefix("take"));
    let existing = vec!["take_007.png".to_string()];
    assert!(planned.plan.has_conflicts_given(&existing));
    let found = planned.plan.conflicts_given(&existing);
    assert_eq!(found.len(), 1);
    assert_eq!(found[0], planned.plan.operations[0]);

    let no_such = vec!["other.png".to_string()];
    assert!(!planned.plan.has_conflicts_given(&no_such));
    assert_eq!(planned.plan.conflicts_given(&no_such).len(), 0);
}

#[test]
fn deletions_never_conflict() {
    let plan = plain_item(1, 1).delete();
    let existing = vec!["shot_1.png".to_string()];
    assert!(!plan.has_conflicts_given(&existing));
    assert!(!plan.operations[0].would_overwrite());
}

#[test]
fn missing_frames_with_gaps() {
    let items = vec![plain_item(1, 3), plain_item(3, 3), plain_item(5, 3)];
    let s = FileSequence::new(items).unwrap();
    assert_eq!(s.missing_frames(), vec![2, 4]);
}

#[test]
fn missing_frames_contiguous_is_empty() {
    let items = vec![plain_item(1, 3), plain_item(2, 3), plain_item(3, 3)];
    let s = FileSequence::new(items).unwrap();
    assert_eq!(s.missing_frames(), Vec::<u32>::new());
}

#[test]
fn missing_frames_single_item_is_empty() {
    let s = FileSequence::new(vec![plain_item(5, 3)]).unwrap();
    assert_eq!(s.missing_frames(), Vec::<u32>::new());
}

#[test]
fn construction_sorts_numerically() {
    let items = vec![plain_item(10, 1), plain_item(2, 1), plain_item(7, 1)];
    let s = FileSequence::new(items).unwrap();
    assert_eq!(s.existing_frames(), vec![2, 7, 10]);
    assert_eq!(s.first_frame(), 2);
    assert_eq!(s.last_frame(), 10);
}

#[test]
fn inconsistent_extension_is_reported() {
    let mut odd = plain_item(3, 3);
    odd.extension = "jpg".to_string();
    let s = FileSequence::new(vec![plain_item(1, 3), plain_item(2, 3), odd]).unwrap();
    match s.extension() {
        Err(SequenceError::InconsistentProperty(name)) => assert_eq!(name, "extension"),
        other => panic!("expected an inconsistency, got {:?}", other),
    }
}

#[test]
fn consistent_extension_is_returned() {
    let s = FileSequence::new(vec![plain_item(1, 3), plain_item(2, 3)]).unwrap();
    assert_eq!(s.extension().unwrap(), "png");
    assert_eq!(s.prefix().unwrap(), "shot");
    assert_eq!(s.delimiter().unwrap(), Some("_".to_string()));
    assert_eq!(s.directory().unwrap(), None);
    assert_eq!(s.padding().unwrap(), 3);
}

#[test]
fn inconsistent_padding_is_reported() {
    let s = FileSequence::new(vec![plain_item(1, 3), plain_item(2, 4)]).unwrap();
    match s.padding() {
        Err(SequenceError::InconsistentProperty(name)) => assert_eq!(name, "padding"),
        other => panic!("expected an inconsistency, got {:?}", other),
    }
}

#[test]
fn sequence_rename_preserves_frames() {
    let items = vec![plain_item(1, 3), plain_item(2, 3), plain_item(3, 3)];
    let s = FileSequence::new(items).unwrap();
    let planned = s.rename(Components::new().prefix("shot_"));
    assert_eq!(planned.proposed.len(), 3);
    let frames: Vec<u32> = planned
        .proposed
        .items
        .iter()
        .map(|i| i.frame_number())
        .collect();
    assert_eq!(frames, vec![1, 2, 3]);
    for item in &planned.proposed.items {
        assert_eq!(item.prefix, "shot_");
    }
}

#[test]
fn sequence_delete_has_one_operation_per_item() {
    let items = vec![plain_item(1, 3), plain_item(2, 3), plain_item(3, 3)];
    let s = FileSequence::new(items).unwrap();
    let plan = s.delete();
    assert_eq!(plan.operations.len(), 3);
    for (k, op) in plan.operations.iter().enumerate() {
        assert_eq!(
            *op,
            FileOperation::Delete {
                source: s.items[k].path(),
            }
        );
    }
}

#[test]
fn sequence_move_to_relocates_every_item() {
    let items = vec![plain_item(1, 3), plain_item(2, 3)];
    let s = FileSequence::new(items).unwrap();
    let planned = s.move_to("archive");
    assert_eq!(planned.plan.operations.len(), 2);
    assert_eq!(
        planned.plan.operations[0],
        FileOperation::Move {
            source: "shot_001.png".to_string(),
            destination: "archive/shot_001.png".to_string(),
        }
    );
    assert_eq!(planned.proposed.items[1].directory, Some("archive".to_string()));
    assert_eq!(planned.proposed.items[1].frame_number(), 2);
}

#[test]
fn copy_to_emits_copy_even_in_place() {
    let item = plain_item(4, 2);
    let planned = item.copy_to(None, None);
    assert_eq!(planned.plan.operations.len(), 1);
    assert_eq!(
        planned.plan.operations[0],
        FileOperation::Copy {
            source: "shot_04.png".to_string(),
            destination: "shot_04.png".to_string(),
        }
    );
}

#[test]
fn move_to_with_directory_override() {
    let item = plain_item(4, 2);
    let planned = item.move_to(None, Some("out".to_string()));
    assert_eq!(
        planned.plan.operations[0],
        FileOperation::Move {
            source: "shot_04.png".to_string(),
            destination: "out/shot_04.png".to_string(),
        }
    );
    assert_eq!(planned.proposed.directory, Some("out".to_string()));
}

#[test]
fn with_frame_number_overrides_only_the_frame() {
    let c = Components::new().prefix("a").padding(5);
    let c2 = c.with_frame_number(9);
    assert_eq!(c2.prefix, Some("a".to_string()));
    assert_eq!(c2.padding, Some(5));
    assert_eq!(c2.frame_number, Some(9));
    assert_eq!(c.frame_number, None);
}

#[test]
fn builder_sets_every_field() {
    let c = Components::new()
        .prefix("p")
        .delimiter("-")
        .padding(2)
        .suffix("s")
        .extension("exr")
        .frame_number(8);
    assert_eq!(c.prefix, Some("p".to_string()));
    assert_eq!(c.delimiter, Some("-".to_string()));
    assert_eq!(c.padding, Some(2));
    assert_eq!(c.suffix, Some("s".to_string()));
    assert_eq!(c.extension, Some("exr".to_string()));
    assert_eq!(c.frame_number, Some(8));
}

#[test]
fn resolve_components_merges_overrides() {
    let item = plain_item(7, 3);
    let resolved = item.resolve_components(&Components::new().extension("exr").padding(5));
    assert_eq!(resolved.prefix, "shot");
    assert_eq!(resolved.delimiter, "_");
    assert_eq!(resolved.padding, 5);
    assert_eq!(resolved.suffix, "");
    assert_eq!(resolved.extension, "exr");
    assert_eq!(resolved.frame_number, 7);
}

#[test]
fn plan_push_and_extend_keep_order() {
    let mut plan = OperationPlan::new();
    plan.push(FileOperation::Delete {
        source: "a".to_string(),
    });
    let mut other = OperationPlan::empty();
    other.push(FileOperation::Delete {
        source: "b".to_string(),
    });
    plan.extend(other);
    assert_eq!(plan.operations.len(), 2);
    assert_eq!(plan.operations[0].source(), "a");
    assert_eq!(plan.operations[1].source(), "b");
    assert_eq!(plan.operations[0].destination(), None);
}

#[test]
fn operation_accessors() {
    let op = FileOperation::Rename {
        source: "x".to_string(),
        destination: "y".to_string(),
    };
    assert_eq!(op.source(), "x");
    assert_eq!(op.destination(), Some(&"y".to_string()));
}

#[test]
fn disk_conflict_check_on_delete_only_plan_is_false() {
    let items = vec![plain_item(1, 3), plain_item(2, 3)];
    let s = FileSequence::new(items).unwrap();
    let plan = s.delete();
    assert!(!plan.has_conflicts());
    assert_eq!(plan.conflicts().len(), 0);
}

#[test]
fn exists_on_disk_runs_without_panicking() {
    let item = plain_item(1, 3);
    let _ = item.exists_on_disk();
}

#[test]
fn default_components_change_nothing() {
    assert_eq!(Components::default(), Components::new());
    let item = plain_item(7, 3);
    let planned = item.rename(Components::default());
    assert_eq!(planned.plan.operations.len(), 0);
}

#[test]
fn empty_directory_joins_as_bare_filename() {
    let item = Item::new(
        "shot".to_string(),
        3,
        2,
        "png".to_string(),
        Some("_".to_string()),
        None,
        Some(String::new()),
    );
    assert_eq!(item.path(), "shot_03.png");
}
