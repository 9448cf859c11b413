use rate_my_politician::{
    get_stats, initialize_politician, Address, ErrorCode, GetStats, InitializePolitician,
    Politician, PoliticianStats, MAX_NAME_LEN,
};

fn key(byte: u8) -> Address {
    Address { bytes: [byte; 32] }
}

fn registration(bump: u8) -> InitializePolitician {
    InitializePolitician { politician: Politician::default(), authority: key(9), bump }
}

#[test]
fn blank_politician_is_empty() {
    let blank = Politician::default();
    assert_eq!(blank.name, "");
    assert_eq!(blank.approve_count, 0);
    assert_eq!(blank.disapprove_count, 0);
    assert_eq!(blank.authority, Address { bytes: [0u8; 32] });
    assert_eq!(blank.bump, 0);
    assert_eq!(Address::default(), Address { bytes: [0u8; 32] });
}

#[test]
fn registration_fills_the_record() {
    let mut ctx = registration(254);
    assert_eq!(initialize_politician(&mut ctx, "Alice Example".to_string()), Ok(()));
    assert_eq!(
        ctx.politician,
        Politician {
            name: "Alice Example".to_string(),
            approve_count: 0,
            disapprove_count: 0,
            authority: key(9),
            bump: 254,
        }
    );
    assert_eq!(ctx.authority, key(9));
    assert_eq!(ctx.bump, 254);
}

#[test]
fn registration_resets_counters_of_the_record_it_is_given() {
    let mut ctx = registration(1);
    ctx.politician.approve_count = 17;
    ctx.politician.disapprove_count = 4;
    ctx.politician.authority = key(3);
    assert_eq!(initialize_politician(&mut ctx, "Bob".to_string()), Ok(()));
    assert_eq!(ctx.politician.approve_count, 0);
    assert_eq!(ctx.politician.disapprove_count, 0);
    assert_eq!(ctx.politician.authority, key(9));
    assert_eq!(ctx.politician.name, "Bob");
}

#[test]
fn name_of_fifty_bytes_is_accepted() {
    assert_eq!(MAX_NAME_LEN, 50);
    let name = "x".repeat(50);
    let mut ctx = registration(7);
    assert_eq!(initialize_politician(&mut ctx, name.clone()), Ok(()));
    assert_eq!(ctx.politician.name, name);
}

#[test]
fn empty_name_is_accepted() {
    let mut ctx = registration(7);
    assert_eq!(initialize_politician(&mut ctx, String::new()), Ok(()));
    assert_eq!(ctx.politician.name, "");
    assert_eq!(ctx.politician.bump, 7);
}

#[test]
fn name_of_fifty_one_bytes_is_refused() {
    let mut ctx = registration(7);
    ctx.politician.name = "before".to_string();
    ctx.politician.approve_count = 3;
    let untouched = ctx.clone();
    assert_eq!(
        initialize_politician(&mut ctx, "x".repeat(51)),
        Err(ErrorCode::NameTooLong)
    );
    assert_eq!(ctx, untouched);
}

#[test]
fn name_length_is_counted_in_bytes() {
    // Seventeen characters of three bytes each: fifty-one bytes.
    let long = "\u{20ac}".repeat(17);
    assert_eq!(long.chars().count(), 17);
    let mut ctx = registration(7);
    assert_eq!(initialize_politician(&mut ctx, long), Err(ErrorCode::NameTooLong));
    assert_eq!(ctx, registration(7));

    // Twenty-five characters of two bytes each: fifty bytes.
    let fits = "\u{e9}".repeat(25);
    let mut ctx = registration(7);
    assert_eq!(initialize_politician(&mut ctx, fits.clone()), Ok(()));
    assert_eq!(ctx.politician.name, fits);
}

#[test]
fn registered_politician_has_no_votes() {
    for name in ["", "A", "Alice Example", "\u{e9}\u{e9}", &"y".repeat(50)] {
        let mut ctx = registration(200);
        assert_eq!(initialize_politician(&mut ctx, name.to_string()), Ok(()));
        let stats = get_stats(&GetStats { politician: ctx.politician });
        assert_eq!(
            stats,
            Ok(PoliticianStats {
                name: name.to_string(),
                approve_count: 0,
                disapprove_count: 0,
                total_votes: 0,
                approve_percentage: 0,
                disapprove_percentage: 0,
            })
        );
    }
}
