use opinions::drafting::{next_daily_slot, next_flash_slot, DraftSpec, DraftTier, DraftingError};
use opinions::money::{BasisPoints, MicroUsd};

fn valid_spec(tier: DraftTier) -> DraftSpec {
    DraftSpec {
        question: "Will the subway extension open by 2030?".into(),
        description: "A locally sourced transit question.".into(),
        video_script: "Track the milestones and vote.".into(),
        slug: "subway-extension-2030".into(),
        tier,
        seed: MicroUsd(2_000_000),
        fee: BasisPoints(100),
        min_votes_to_resolve: 3,
        open_secs: 3_600,
        hidden_window_secs: 300,
    }
}

#[test]
fn daily_slots_are_integer_pinned_and_strictly_after_boundaries() {
    // Seven intervals use floor(86_400 / 7) = 12_342 seconds. The
    // six-second remainder belongs only to the final interval.
    assert_eq!(next_daily_slot(0, 7), Ok(12_342));
    assert_eq!(next_daily_slot(12_341, 7), Ok(12_342));
    assert_eq!(next_daily_slot(12_342, 7), Ok(24_684));
    assert_eq!(next_daily_slot(74_052, 7), Ok(86_400));
    assert_eq!(next_daily_slot(86_400, 7), Ok(98_742));

    // Euclidean day arithmetic keeps pre-epoch timestamps pinned too.
    assert_eq!(next_daily_slot(-1, 2), Ok(0));
    assert_eq!(next_daily_slot(-43_200, 2), Ok(0));
}

#[test]
fn flash_slots_are_strictly_after_the_cadence_boundary() {
    assert_eq!(next_flash_slot(0, 3_600), Ok(3_600));
    assert_eq!(next_flash_slot(3_599, 3_600), Ok(3_600));
    assert_eq!(next_flash_slot(3_600, 3_600), Ok(7_200));
    assert_eq!(next_flash_slot(-1, 3_600), Ok(0));
}

#[test]
fn slotting_rejects_zero_and_overflow_instead_of_wrapping() {
    assert_eq!(next_daily_slot(0, 0), Err(DraftingError::InvalidSlots));
    assert_eq!(
        next_daily_slot(i64::MAX, 1),
        Err(DraftingError::TimestampOverflow)
    );
    assert_eq!(next_flash_slot(0, 0), Err(DraftingError::InvalidCadence));
    assert_eq!(
        next_flash_slot(i64::MAX, 1),
        Err(DraftingError::TimestampOverflow)
    );
}

#[test]
fn draft_validation_and_tier_floors_are_explicit() {
    let spec = valid_spec(DraftTier::Flash);
    assert_eq!(spec.validate(), Ok(()));
    assert_eq!(spec.validate_floors(1_000_000, 3), Ok(()));

    let mut invalid = spec.clone();
    invalid.question = "   ".into();
    assert_eq!(invalid.validate(), Err(DraftingError::EmptyQuestion));
    invalid = spec.clone();
    invalid.description = String::new();
    assert_eq!(invalid.validate(), Err(DraftingError::EmptyDescription));
    invalid = spec.clone();
    invalid.video_script = String::new();
    assert_eq!(invalid.validate(), Err(DraftingError::EmptyVideoScript));
    invalid = spec.clone();
    invalid.slug = String::new();
    assert_eq!(invalid.validate(), Err(DraftingError::EmptySlug));
    invalid = spec.clone();
    invalid.seed = MicroUsd(0);
    assert_eq!(invalid.validate(), Err(DraftingError::InvalidSeed));
    invalid = spec.clone();
    invalid.fee = BasisPoints(10_001);
    assert_eq!(invalid.validate(), Err(DraftingError::InvalidFee));
    invalid = spec.clone();
    invalid.min_votes_to_resolve = 0;
    assert_eq!(invalid.validate(), Err(DraftingError::InvalidMinVotes));
    invalid = spec.clone();
    invalid.hidden_window_secs = invalid.open_secs;
    assert_eq!(invalid.validate(), Err(DraftingError::InvalidWindow));
    invalid = spec.clone();
    invalid.seed = MicroUsd(999_999);
    assert_eq!(
        invalid.validate_floors(1_000_000, 3),
        Err(DraftingError::SeedBelowFloor)
    );
    invalid = spec;
    invalid.min_votes_to_resolve = 2;
    assert_eq!(
        invalid.validate_floors(1_000_000, 3),
        Err(DraftingError::VotesBelowFloor)
    );
}
