//! A vocabulary study backend's write path: users own decks of cards, cards
//! carry a front term and a back with pronunciation audio and an illustrative
//! image, study sessions record scores, and cards can be grouped into sets.
//!
//! Every mutation checks that the caller owns what it touches and either
//! applies all of its rows or none of them. New cards get their audio and
//! image from a cache whose file paths depend on the language and the word
//! alone.

mod assets;
mod auth;
mod card;
mod credentials;
mod deck;
mod error;
mod inputs;
mod jwt;
mod laws;
mod model;
mod score;
mod set;
mod store;
mod table;
mod text;
mod user;

pub use assets::{
    asset_path, file_name_char, file_name_safe, first_image_src_of, kind_dir, kind_ext, relative_path, sanitized_of, search_url_of,
    source_url_of, storage_key, tts_url_of, AssetJob, AssetKind, CacheStep,
};
pub use auth::{authorize, authorized};
pub use card::{
    all_cards_allowed, card_check, card_in_use, card_owner_check, cards_appended, changed_link,
    deck_abbr, first_card_failure, is_job_for, is_new_back, is_new_card,
};
pub use credentials::{bcrypt_accepts, hash_password, password_matches, HASH_COST};
pub use deck::{deck_in_use, deck_owner_check, decks_appended};
pub use error::{AssetError, TRCError};
pub use inputs::{
    CardChangeset, CardDeleteset, DeckChangeset, DeckDeleteset, NewCard, NewDeck, NewScore, NewSet,
    NewUser, ScoreChangeset, SetChangeset, SetDeleteset, UserChangeset, UserDeleteset,
};
pub use jwt::{
    encode_jwt, expiry_fits, expiry_of, issued_token, signed_token_of, token_at, token_claims_of, verified_claims, verify_at,
    verify_jwt, Claims, LoginAttempt, SecretKey, TokenError, DAY_SECONDS, LEEWAY_SECONDS,
    TOKEN_DAYS,
};
pub use laws::{
    law_batch_with_foreign_deck_is_refused, law_cached_asset_path_is_stable,
    law_created_card_reads_back, law_deleted_set_is_gone, law_foreign_rows_are_refused,
    law_issued_token_verifies, law_new_password_authenticates,
};
pub use model::{Back, Card, CardSet, Deck, Keyed, Language, Score, ScoreValue, SetCard, User};
pub use score::{all_scores_allowed, first_score_failure, score_owner_check, scores_appended};
pub use set::{
    new_members, not_in_set, rows_needed, set_owner_check, set_refs_found, set_written,
    sets_written,
};
pub use store::{usernames_unique, Store, Tables};
pub use table::{has_id, ids_below, ids_unique, index_of, row_of};
pub use user::{
    authenticates, is_new_user, user_in_use, user_named, username_taken, usernames_fresh,
    users_appended, with_password,
};
