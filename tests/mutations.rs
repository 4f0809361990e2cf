use total_recall::{
    authorize, verify_jwt, AssetKind, LoginAttempt, SecretKey,
    AssetError, CardChangeset, CardDeleteset, DeckChangeset, DeckDeleteset, NewCard, NewDeck,
    NewScore, NewSet, NewUser, ScoreChangeset, ScoreValue, SetChangeset, SetDeleteset, Store,
    TRCError, UserChangeset, UserDeleteset,
};

const NOW: i64 = 1_600_000_000_000;

fn store_with_language() -> Store {
    let mut store = Store::new();
    let english = store.add_language("English".to_string(), "en".to_string()).unwrap();
    assert_eq!(english.id, 1);
    store
}

fn register(store: &mut Store, name: &str, password: &str) -> i32 {
    let user = store
        .create_user(NewUser { username: name.to_string(), password: password.to_string() }, NOW)
        .expect("Failed to create user");
    assert_eq!(user.username, name);
    assert_eq!(store.authenticate(name, password), Ok(user.id), "Login failed");
    user.id
}

fn new_deck(store: &mut Store, uid: i32, name: &str) -> i32 {
    store
        .create_deck(Some(uid), NewDeck { name: name.to_string(), language: 1 })
        .expect("Failed to create deck")
        .id
}

fn new_card(front: &str, back: &str, deck: i32) -> NewCard {
    NewCard { front: front.to_string(), back: back.to_string(), deck, link: None }
}

fn row_count(store: &Store) -> usize {
    let mut n = 0;
    for id in 1..200 {
        n += store.user(id).is_some() as usize;
        n += store.deck(id).is_some() as usize;
        n += store.card(id).is_some() as usize;
        n += store.back(id).is_some() as usize;
        n += store.score(id).is_some() as usize;
        n += store.set(id).is_some() as usize;
    }
    n
}

#[test]
fn test_user() {
    let mut store = store_with_language();
    let uid = register(&mut store, "test_user", "test");
    let updated = store
        .update_user(Some(uid), UserChangeset { id: uid, password: "changed".to_string() }, NOW + 1)
        .expect("Failed to update user password");
    assert_eq!(updated.username, "test_user");
    assert_eq!(updated.updated_at, NOW + 1);
    assert_eq!(updated.created_at, NOW);
    assert_eq!(
        store.authenticate("test_user", "test"),
        Err(TRCError::Unauthorized),
        "Login with old password still works"
    );
    assert_eq!(store.authenticate("test_user", "changed"), Ok(uid), "Login with new password failed");
    assert_eq!(store.delete_user(Some(uid), UserDeleteset { id: uid }), Ok(1), "User deletion failed");
}

#[test]
fn test_deck() {
    let mut store = store_with_language();
    let uid = register(&mut store, "test_user", "test");
    let deck = new_deck(&mut store, uid, "test_deck");
    let updated = store
        .update_deck(Some(uid), DeckChangeset { id: deck, name: "changed_name".to_string() })
        .expect("Failed to update deck");
    assert_eq!(updated.name, "changed_name");
    assert_eq!(store.deck(deck).expect("Failed to read deck").name, "changed_name");
    assert_eq!(store.delete_deck(Some(uid), DeckDeleteset { id: deck }), Ok(1), "Failed to delete deck");
}

#[test]
fn test_card() {
    let mut store = store_with_language();
    let uid = register(&mut store, "test_user", "test");
    let deck = new_deck(&mut store, uid, "test_deck");
    let card = store
        .create_card(Some(uid), new_card("foo", "bar", deck), Ok(()), NOW)
        .expect("Failed to create card");
    let updated = store
        .update_card(
            Some(uid),
            CardChangeset { id: card.id, link: Some(Some("http://foo.com/bar/baz".to_string())) },
        )
        .expect("Failed to update card");
    assert_eq!(updated.link.as_deref(), Some("http://foo.com/bar/baz"));
    let read = store.card(card.id).expect("Failed to read card");
    assert_eq!(read.link.as_deref(), Some("http://foo.com/bar/baz"));
    assert_eq!(store.delete_card(Some(uid), CardDeleteset { id: card.id }), Ok(1), "Failed to delete card");
}

#[test]
fn test_score() {
    let mut store = store_with_language();
    let uid = register(&mut store, "test_user", "test");
    let deck = new_deck(&mut store, uid, "test_deck");
    let card = store
        .create_card(Some(uid), new_card("foo", "bar", deck), Ok(()), NOW)
        .expect("Failed to create card");
    let score = store
        .create_score(Some(uid), NewScore { card: card.id, value: ScoreValue::FIVE }, NOW)
        .expect("Failed to create score");
    let updated = store
        .update_score(Some(uid), ScoreChangeset { id: score.id, value: ScoreValue::ZERO })
        .expect("Failed to update score");
    assert_eq!(updated.value, ScoreValue::ZERO);
    assert_eq!(store.score(score.id).expect("Failed to read score").value, ScoreValue::ZERO);
}

#[test]
fn test_set() {
    let mut store = store_with_language();
    let uid = register(&mut store, "test_user", "test");
    let deck = new_deck(&mut store, uid, "test_deck");
    let card = store
        .create_card(Some(uid), new_card("foo", "bar", deck), Ok(()), NOW)
        .expect("Failed to create card");
    let set = store
        .create_set(
            Some(uid),
            NewSet { name: "test_set".to_string(), deck, cards: vec![card.id] },
            NOW,
        )
        .expect("Failed to create set");
    let updated = store
        .update_set(Some(uid), SetChangeset { id: set.id, name: "another_name".to_string() })
        .expect("Failed to update set");
    assert_eq!(updated.name, "another_name");
    assert_eq!(store.set(set.id).expect("Failed to read set").name, "another_name");
    assert_eq!(store.delete_set(Some(uid), SetDeleteset { id: set.id }), Ok(1), "Failed to delete set");
}

#[test]
fn anonymous_mutations_are_unauthorized_and_write_nothing() {
    let mut store = store_with_language();
    let uid = register(&mut store, "u1", "pass1");
    let deck = new_deck(&mut store, uid, "d1");
    let card = store.create_card(Some(uid), new_card("foo", "bar", deck), Ok(()), NOW).unwrap();
    let before = row_count(&store);
    assert_eq!(
        store.create_deck(None, NewDeck { name: "x".to_string(), language: 1 }).unwrap_err(),
        TRCError::Unauthorized
    );
    assert_eq!(
        store.create_card(None, new_card("a", "b", deck), Ok(()), NOW).unwrap_err(),
        TRCError::Unauthorized
    );
    assert_eq!(
        store.create_cards(None, &vec![new_card("a", "b", deck)], Ok(()), NOW).unwrap_err(),
        TRCError::Unauthorized
    );
    assert_eq!(
        store.create_score(None, NewScore { card: card.id, value: ScoreValue::ONE }, NOW).unwrap_err(),
        TRCError::Unauthorized
    );
    assert_eq!(
        store
            .create_set(None, NewSet { name: "s".to_string(), deck, cards: vec![] }, NOW)
            .unwrap_err(),
        TRCError::Unauthorized
    );
    assert_eq!(
        store.update_card(None, CardChangeset { id: card.id, link: Some(None) }).unwrap_err(),
        TRCError::Unauthorized
    );
    assert_eq!(store.delete_card(None, CardDeleteset { id: card.id }), Err(TRCError::Unauthorized));
    assert_eq!(store.delete_deck(None, DeckDeleteset { id: deck }), Err(TRCError::Unauthorized));
    assert_eq!(
        store
            .update_user(None, UserChangeset { id: uid, password: "x".to_string() }, NOW)
            .unwrap_err(),
        TRCError::Unauthorized
    );
    assert_eq!(store.delete_user(None, UserDeleteset { id: uid }), Err(TRCError::Unauthorized));
    assert_eq!(row_count(&store), before);
}

#[test]
fn other_users_rows_are_refused_and_unchanged() {
    let mut store = store_with_language();
    let a = register(&mut store, "alice", "pa");
    let b = register(&mut store, "bob", "pb");
    let deck = new_deck(&mut store, a, "d1");
    let card = store.create_card(Some(a), new_card("foo", "bar", deck), Ok(()), NOW).unwrap();
    let score = store
        .create_score(Some(a), NewScore { card: card.id, value: ScoreValue::THREE }, NOW)
        .unwrap();
    let set = store
        .create_set(Some(a), NewSet { name: "s".to_string(), deck, cards: vec![card.id] }, NOW)
        .unwrap();
    assert_eq!(
        store.update_deck(Some(b), DeckChangeset { id: deck, name: "x".to_string() }).unwrap_err(),
        TRCError::Unauthorized
    );
    assert_eq!(store.delete_deck(Some(b), DeckDeleteset { id: deck }), Err(TRCError::Unauthorized));
    assert_eq!(
        store
            .update_card(Some(b), CardChangeset { id: card.id, link: Some(Some("x".to_string())) })
            .unwrap_err(),
        TRCError::Unauthorized
    );
    assert_eq!(store.delete_card(Some(b), CardDeleteset { id: card.id }), Err(TRCError::Unauthorized));
    assert_eq!(
        store
            .update_score(Some(b), ScoreChangeset { id: score.id, value: ScoreValue::ZERO })
            .unwrap_err(),
        TRCError::Unauthorized
    );
    assert_eq!(
        store.update_set(Some(b), SetChangeset { id: set.id, name: "x".to_string() }).unwrap_err(),
        TRCError::Unauthorized
    );
    assert_eq!(store.delete_set(Some(b), SetDeleteset { id: set.id }), Err(TRCError::Unauthorized));
    assert_eq!(
        store
            .update_user(Some(b), UserChangeset { id: a, password: "x".to_string() }, NOW)
            .unwrap_err(),
        TRCError::Unauthorized
    );
    assert_eq!(store.delete_user(Some(b), UserDeleteset { id: a }), Err(TRCError::Unauthorized));
    assert_eq!(
        store
            .create_card(Some(b), new_card("x", "y", deck), Ok(()), NOW)
            .unwrap_err(),
        TRCError::Unauthorized
    );
    assert_eq!(
        store.create_score(Some(b), NewScore { card: card.id, value: ScoreValue::ONE }, NOW).unwrap_err(),
        TRCError::Unauthorized
    );
    assert_eq!(store.deck(deck).unwrap().name, "d1");
    assert_eq!(store.card(card.id).unwrap().link, None);
    assert_eq!(store.score(score.id).unwrap().value, ScoreValue::THREE);
    assert_eq!(store.set(set.id).unwrap().name, "s");
    assert_eq!(store.authenticate("alice", "pa"), Ok(a));
}

#[test]
fn created_card_reads_back() {
    let mut store = store_with_language();
    let uid = register(&mut store, "u1", "pass1");
    let deck = new_deck(&mut store, uid, "d1");
    let card = store.create_card(Some(uid), new_card("foo", "bar", deck), Ok(()), NOW).unwrap();
    let read = store.card(card.id).unwrap();
    assert_eq!(read.deck, deck);
    assert_eq!(read.front, "foo");
    assert_eq!(read.created_at, NOW);
    let back = store.back(read.back).unwrap();
    assert_eq!(back.text, "bar");
    assert_eq!(back.language, 1);
    assert_eq!(back.audio.as_deref(), Some("audio/en/bar.mp3"));
    assert_eq!(back.image.as_deref(), Some("images/en/bar.jpg"));
}

#[test]
fn card_paths_use_the_sanitised_word() {
    let mut store = store_with_language();
    let uid = register(&mut store, "u1", "pass1");
    let deck = new_deck(&mut store, uid, "d1");
    let card = store
        .create_card(Some(uid), new_card("q", "a/b:c?", deck), Ok(()), NOW)
        .unwrap();
    let back = store.back(card.back).unwrap();
    assert_eq!(back.text, "a/b:c?");
    assert_eq!(back.audio.as_deref(), Some("audio/en/abc.mp3"));
    assert_eq!(back.image.as_deref(), Some("images/en/abc.jpg"));
}

#[test]
fn batch_with_a_foreign_deck_writes_nothing() {
    let mut store = store_with_language();
    let a = register(&mut store, "alice", "pa");
    let b = register(&mut store, "bob", "pb");
    let mine = new_deck(&mut store, a, "mine");
    let theirs = new_deck(&mut store, b, "theirs");
    let before = row_count(&store);
    let items = vec![new_card("1", "one", mine), new_card("2", "two", theirs), new_card("3", "three", mine)];
    assert_eq!(store.create_cards(Some(a), &items, Ok(()), NOW).unwrap_err(), TRCError::Unauthorized);
    assert_eq!(row_count(&store), before);
}

#[test]
fn batch_cards_share_one_timestamp() {
    let mut store = store_with_language();
    let a = register(&mut store, "alice", "pa");
    let deck = new_deck(&mut store, a, "mine");
    let items = vec![new_card("1", "one", deck), new_card("2", "two", deck)];
    let cards = store.create_cards(Some(a), &items, Ok(()), NOW).unwrap();
    assert_eq!(cards.len(), 2);
    assert_eq!(cards[0].created_at, NOW);
    assert_eq!(cards[1].created_at, NOW);
    assert_eq!(cards[1].front, "2");
    assert_eq!(store.back(cards[1].back).unwrap().text, "two");
}

#[test]
fn failed_asset_resolution_writes_nothing() {
    let mut store = store_with_language();
    let a = register(&mut store, "alice", "pa");
    let deck = new_deck(&mut store, a, "mine");
    let before = row_count(&store);
    assert_eq!(
        store.create_card(Some(a), new_card("1", "one", deck), Err(AssetError::Network), NOW).unwrap_err(),
        TRCError::AssetResolution(AssetError::Network)
    );
    assert_eq!(
        store
            .create_cards(Some(a), &vec![new_card("1", "one", deck)], Err(AssetError::NoResult), NOW)
            .unwrap_err(),
        TRCError::AssetResolution(AssetError::NoResult)
    );
    assert_eq!(row_count(&store), before);
}

#[test]
fn missing_rows_are_not_found() {
    let mut store = store_with_language();
    let a = register(&mut store, "alice", "pa");
    assert_eq!(
        store.create_deck(Some(a), NewDeck { name: "d".to_string(), language: 99 }).unwrap_err(),
        TRCError::NotFound
    );
    assert_eq!(
        store.create_card(Some(a), new_card("x", "y", 99), Ok(()), NOW).unwrap_err(),
        TRCError::NotFound
    );
    assert_eq!(
        store.update_deck(Some(a), DeckChangeset { id: 99, name: "x".to_string() }).unwrap_err(),
        TRCError::NotFound
    );
    assert_eq!(
        store.update_score(Some(a), ScoreChangeset { id: 99, value: ScoreValue::ONE }).unwrap_err(),
        TRCError::NotFound
    );
    assert_eq!(
        store.create_set(Some(a), NewSet { name: "s".to_string(), deck: 99, cards: vec![] }, NOW).unwrap_err(),
        TRCError::NotFound
    );
    assert_eq!(store.delete_card(Some(a), CardDeleteset { id: 99 }), Ok(0));
}

#[test]
fn delete_set_twice_counts_one_then_zero() {
    let mut store = store_with_language();
    let a = register(&mut store, "alice", "pa");
    let deck = new_deck(&mut store, a, "d");
    let card = store.create_card(Some(a), new_card("x", "y", deck), Ok(()), NOW).unwrap();
    let set = store
        .create_set(Some(a), NewSet { name: "s".to_string(), deck, cards: vec![card.id] }, NOW)
        .unwrap();
    assert_eq!(store.delete_set(Some(a), SetDeleteset { id: set.id }), Ok(1));
    assert_eq!(store.delete_set(Some(a), SetDeleteset { id: set.id }), Ok(0));
    // The membership rows went with the set, so the card can go now.
    assert_eq!(store.delete_card(Some(a), CardDeleteset { id: card.id }), Ok(1));
}

#[test]
fn end_to_end_scenario() {
    let mut store = store_with_language();
    let uid = register(&mut store, "u1", "pass1");
    let deck = store
        .create_deck(Some(uid), NewDeck { name: "d1".to_string(), language: 1 })
        .unwrap();
    assert_eq!(deck.owner, uid);
    let card = store
        .create_card(Some(uid), new_card("foo", "bar", deck.id), Ok(()), NOW)
        .unwrap();
    store
        .update_card(Some(uid), CardChangeset { id: card.id, link: Some(Some("http://x".to_string())) })
        .unwrap();
    assert_eq!(store.card(card.id).unwrap().link.as_deref(), Some("http://x"));
    assert_eq!(store.delete_card(Some(uid), CardDeleteset { id: card.id }), Ok(1));
}

#[test]
fn card_link_update_keeps_clears_or_sets() {
    let mut store = store_with_language();
    let uid = register(&mut store, "u1", "pass1");
    let deck = new_deck(&mut store, uid, "d1");
    let mut item = new_card("foo", "bar", deck);
    item.link = Some("http://a".to_string());
    let card = store.create_card(Some(uid), item, Ok(()), NOW).unwrap();
    let kept = store.update_card(Some(uid), CardChangeset { id: card.id, link: None }).unwrap();
    assert_eq!(kept.link.as_deref(), Some("http://a"));
    let cleared = store.update_card(Some(uid), CardChangeset { id: card.id, link: Some(None) }).unwrap();
    assert_eq!(cleared.link, None);
}

#[test]
fn rows_in_use_are_not_deleted() {
    let mut store = store_with_language();
    let uid = register(&mut store, "u1", "pass1");
    let deck = new_deck(&mut store, uid, "d1");
    let card = store.create_card(Some(uid), new_card("foo", "bar", deck), Ok(()), NOW).unwrap();
    store.create_score(Some(uid), NewScore { card: card.id, value: ScoreValue::TWO }, NOW).unwrap();
    assert_eq!(store.delete_deck(Some(uid), DeckDeleteset { id: deck }), Err(TRCError::Validation));
    assert_eq!(store.delete_card(Some(uid), CardDeleteset { id: card.id }), Err(TRCError::Validation));
    assert_eq!(store.delete_user(Some(uid), UserDeleteset { id: uid }), Err(TRCError::Validation));
}

#[test]
fn usernames_are_unique() {
    let mut store = store_with_language();
    register(&mut store, "u1", "pass1");
    assert_eq!(
        store
            .create_user(NewUser { username: "u1".to_string(), password: "x".to_string() }, NOW)
            .unwrap_err(),
        TRCError::Validation
    );
    let batch = vec![
        NewUser { username: "u2".to_string(), password: "a".to_string() },
        NewUser { username: "u2".to_string(), password: "b".to_string() },
    ];
    assert_eq!(store.create_users(&batch, NOW).unwrap_err(), TRCError::Validation);
    assert_eq!(store.authenticate("u2", "a"), Err(TRCError::Unauthorized));
}

#[test]
fn batch_users_decks_scores_sets() {
    let mut store = store_with_language();
    let users = store
        .create_users(
            &vec![
                NewUser { username: "a".to_string(), password: "pa".to_string() },
                NewUser { username: "b".to_string(), password: "pb".to_string() },
            ],
            NOW,
        )
        .unwrap();
    assert_eq!(users.len(), 2);
    assert_ne!(users[0].password, "pa");
    assert_eq!(store.authenticate("b", "pb"), Ok(users[1].id));
    let uid = users[0].id;
    let decks = store
        .create_decks(
            Some(uid),
            &vec![
                NewDeck { name: "d1".to_string(), language: 1 },
                NewDeck { name: "d2".to_string(), language: 1 },
            ],
        )
        .unwrap();
    assert_eq!(decks[1].name, "d2");
    assert_eq!(decks[1].owner, uid);
    let card = store.create_card(Some(uid), new_card("x", "y", decks[0].id), Ok(()), NOW).unwrap();
    let scores = store
        .create_scores(
            Some(uid),
            &vec![
                NewScore { card: card.id, value: ScoreValue::ONE },
                NewScore { card: card.id, value: ScoreValue::FOUR },
            ],
            NOW,
        )
        .unwrap();
    assert_eq!(scores[1].value, ScoreValue::FOUR);
    assert_eq!(scores[0].created_at, NOW);
    let sets = store
        .create_sets(
            Some(uid),
            &vec![
                NewSet { name: "s1".to_string(), deck: decks[0].id, cards: vec![card.id] },
                NewSet { name: "s2".to_string(), deck: decks[1].id, cards: vec![] },
            ],
            NOW,
        )
        .unwrap();
    assert_eq!(sets.len(), 2);
    assert_eq!(sets[0].name, "s1");
    assert_eq!(sets[1].owner, uid);
    let other = users[1].id;
    assert_eq!(
        store
            .create_scores(Some(other), &vec![NewScore { card: card.id, value: ScoreValue::ONE }], NOW)
            .unwrap_err(),
        TRCError::Unauthorized
    );
}

#[test]
fn score_values_round_trip() {
    for v in 0..6i16 {
        assert_eq!(ScoreValue::from_i16(v).unwrap().to_i16(), v);
    }
    assert_eq!(ScoreValue::from_i16(6), None);
    assert_eq!(ScoreValue::from_i16(-1), None);
    assert_eq!(ScoreValue::FIVE.to_i16(), 5);
}

#[test]
fn error_kinds() {
    assert_eq!(TRCError::Unauthorized.kind(), "UNAUTHORIZED");
    assert_eq!(TRCError::AssetResolution(AssetError::Parse).kind(), "ASSET_RESOLUTION");
    assert_eq!(TRCError::Internal.kind(), "INTERNAL");
}

#[test]
fn authorization_gate() {
    assert_eq!(authorize(None, &vec![]), Err(TRCError::Unauthorized));
    assert_eq!(authorize(Some(3), &vec![]), Ok(3));
    assert_eq!(authorize(Some(3), &vec![3, 3]), Ok(3));
    assert_eq!(authorize(Some(3), &vec![3, 4, 3]), Err(TRCError::Unauthorized));
}

#[test]
fn card_assets_are_named_after_authorization() {
    let mut store = store_with_language();
    let a = register(&mut store, "alice", "pa");
    let b = register(&mut store, "bob", "pb");
    let mine = new_deck(&mut store, a, "mine");
    let theirs = new_deck(&mut store, b, "theirs");
    let jobs = store
        .card_assets(Some(a), &vec![new_card("1", "Haus", mine), new_card("2", "Maus", mine)])
        .unwrap();
    assert_eq!(jobs.len(), 4);
    assert_eq!(jobs[0].kind, AssetKind::Audio);
    assert_eq!(jobs[1].kind, AssetKind::Image);
    assert_eq!(jobs[2].path(), "audio/en/Maus.mp3");
    assert_eq!(jobs[3].path(), "images/en/Maus.jpg");
    assert_eq!(
        store.card_assets(Some(a), &vec![new_card("1", "x", theirs)]).unwrap_err(),
        TRCError::Unauthorized
    );
    assert_eq!(store.card_assets(None, &vec![]).unwrap_err(), TRCError::Unauthorized);
    assert_eq!(store.card_assets(Some(a), &vec![new_card("1", "x", 99)]).unwrap_err(), TRCError::NotFound);
}

#[test]
fn closed_accounts_cannot_create() {
    let mut store = store_with_language();
    let uid = register(&mut store, "gone", "pw");
    assert_eq!(store.delete_user(Some(uid), UserDeleteset { id: uid }), Ok(1));
    assert_eq!(
        store.create_deck(Some(uid), NewDeck { name: "d".to_string(), language: 1 }).unwrap_err(),
        TRCError::Unauthorized
    );
    assert_eq!(
        store
            .create_sets(Some(uid), &vec![NewSet { name: "s".to_string(), deck: 1, cards: vec![] }], NOW)
            .unwrap_err(),
        TRCError::Unauthorized
    );
    assert_eq!(store.authenticate("gone", "pw"), Err(TRCError::Unauthorized));
}

#[test]
fn login_gives_a_token_for_the_account() {
    let mut store = store_with_language();
    let uid = register(&mut store, "test_user", "test");
    let key = SecretKey::new("secret".to_string());
    store
        .update_user(Some(uid), UserChangeset { id: uid, password: "changed".to_string() }, NOW)
        .unwrap();
    let (token, id) = store
        .login(&key, &LoginAttempt { username: "test_user".to_string(), password: "changed".to_string() })
        .unwrap();
    assert_eq!(id, uid);
    assert_eq!(verify_jwt(&key, token).unwrap().user_id, uid);
    assert_eq!(
        store
            .login(&key, &LoginAttempt { username: "test_user".to_string(), password: "test".to_string() })
            .unwrap_err(),
        TRCError::Unauthorized
    );
    assert_eq!(
        store
            .login(&key, &LoginAttempt { username: "nobody".to_string(), password: "x".to_string() })
            .unwrap_err(),
        TRCError::Unauthorized
    );
}

#[test]
fn replayed_hashes_restore_accounts() {
    let mut store = store_with_language();
    let uid = register(&mut store, "a", "pw");
    let hash = store.user(uid).unwrap().password;
    let mut copy = store_with_language();
    let restored = copy.register_with_hash("a".to_string(), hash.clone(), NOW).unwrap();
    assert_eq!(restored.id, uid);
    assert_eq!(restored.password, hash);
    assert_eq!(copy.authenticate("a", "pw"), Ok(uid));
    assert_eq!(
        copy.register_with_hash("a".to_string(), hash, NOW).unwrap_err(),
        TRCError::Validation
    );
    let other = store.update_user(Some(uid), UserChangeset { id: uid, password: "new".to_string() }, NOW + 5).unwrap();
    let changed = copy.change_password_hash(Some(uid), uid, other.password.clone(), NOW + 5).unwrap();
    assert_eq!(changed.updated_at, NOW + 5);
    assert_eq!(copy.authenticate("a", "new"), Ok(uid));
    assert_eq!(copy.change_password_hash(Some(uid + 1), uid, other.password, NOW).unwrap_err(), TRCError::Unauthorized);
}
