use clash_profiles::profile::{IProfiles, PrfItem};
use clash_profiles::store::{ImportStep, ProfileStore, StoreError, SwitchStep};
use clash_profiles::update::{
    refreshed_current, update_report, Batch, BatchStep, UpdateEvent, UpdateOutcome, UpdateStep,
};

fn item(uid: &str, itype: &str) -> PrfItem {
    PrfItem {
        uid: Some(uid.into()),
        itype: Some(itype.into()),
        ..Default::default()
    }
}

fn remote(uid: &str) -> PrfItem {
    PrfItem {
        url: Some(format!("https://e.com/{uid}")),
        ..item(uid, "remote")
    }
}

fn store(current: Option<&str>, items: Vec<PrfItem>) -> ProfileStore {
    ProfileStore::snapshot(IProfiles {
        current: current.map(|uid| uid.into()),
        items: Some(items),
    })
}

#[test]
fn selected_index_follows_the_gui_current_uid() {
    let store = ProfileStore {
        profiles: IProfiles {
            current: Some("remote".into()),
            items: Some(vec![
                PrfItem {
                    uid: Some("merge".into()),
                    itype: Some("merge".into()),
                    ..Default::default()
                },
                PrfItem {
                    uid: Some("remote".into()),
                    itype: Some("remote".into()),
                    ..Default::default()
                },
            ]),
        },
    };

    assert_eq!(store.selected_index(), 0);
}

#[test]
fn items_exclude_gui_internal_profile_fragments() {
    let store = ProfileStore {
        profiles: IProfiles {
            current: Some("remote-b".into()),
            items: Some(vec![
                PrfItem {
                    uid: Some("merge".into()),
                    itype: Some("merge".into()),
                    ..Default::default()
                },
                PrfItem {
                    uid: Some("remote-a".into()),
                    itype: Some("remote".into()),
                    ..Default::default()
                },
                PrfItem {
                    uid: Some("rules".into()),
                    itype: Some("rules".into()),
                    ..Default::default()
                },
                PrfItem {
                    uid: Some("remote-b".into()),
                    itype: Some("remote".into()),
                    ..Default::default()
                },
            ]),
        },
    };

    let items = store.items();
    assert_eq!(items.len(), 2);
    assert_eq!(items[0].uid.as_deref(), Some("remote-a"));
    assert_eq!(items[1].uid.as_deref(), Some("remote-b"));
    assert_eq!(store.selected_index(), 1);
}

#[test]
fn all_items_include_the_fragments() {
    let all = vec![item("m", "merge"), remote("a"), PrfItem::default()];
    let store = store(None, all.clone());
    assert_eq!(store.all_items(), all);
    assert_eq!(store.items(), vec![remote("a")]);
    let nothing = ProfileStore::snapshot(IProfiles { current: None, items: None });
    assert_eq!(nothing.all_items(), vec![]);
    assert_eq!(nothing.items(), vec![]);
    assert_eq!(nothing.selected_index(), 0);
    assert_eq!(nothing.current_uid(), None);
}

#[test]
fn selection_is_zero_for_a_current_that_cannot_be_selected() {
    let items = vec![item("m", "merge"), remote("a"), remote("b")];
    assert_eq!(store(Some("m"), items.clone()).selected_index(), 0);
    assert_eq!(store(Some("x"), items.clone()).selected_index(), 0);
    assert_eq!(store(None, items.clone()).selected_index(), 0);
    assert_eq!(store(Some("b"), items.clone()).selected_index(), 1);
    assert_eq!(store(Some("b"), items).current_uid().as_deref(), Some("b"));
}

#[test]
fn fragment_does_not_move_the_selection() {
    let mut items = vec![remote("a"), remote("b")];
    let before = store(Some("b"), items.clone());
    items.insert(1, item("s", "script"));
    let after = store(Some("b"), items);
    assert_eq!(before.items(), after.items());
    assert_eq!(before.selected_index(), after.selected_index());
}

#[test]
fn item_is_found_by_its_first_uid() {
    let mut second = remote("a");
    second.url = None;
    let profiles = IProfiles {
        current: None,
        items: Some(vec![item("m", "merge"), remote("a"), second]),
    };
    assert_eq!(profiles.get_item("a"), Some(&remote("a")));
    assert_eq!(profiles.get_item("x"), None);
    assert_eq!(IProfiles { current: None, items: None }.get_item("a"), None);
}

fn patch(uid: &str) -> IProfiles {
    IProfiles {
        current: Some(uid.into()),
        items: None,
    }
}

#[test]
fn switch_answers_with_its_predecessor() {
    let before = store(Some("a"), vec![remote("a"), remote("b")]);
    assert_eq!(
        before.set_current("b"),
        SwitchStep::Install { patch: patch("b"), previous: None }
    );
    let step = before.replace_current_locked("b");
    assert_eq!(
        step,
        SwitchStep::Install { patch: patch("b"), previous: Some("a".into()) }
    );
    assert_eq!(step.saved(Ok(())), SwitchStep::Done(Ok(Some("a".into()))));
    let failed = before.replace_current_locked("b").saved(Err("disk full".into()));
    let error = StoreError::SaveCurrentFailed("disk full".into());
    assert_eq!(error.message(), "failed to save profiles.yaml after set_current");
    assert_eq!(error.cause().as_deref(), Some("disk full"));
    assert_eq!(failed, SwitchStep::Done(Err(error)));
    // The next switch sees the first one.
    let between = store(Some("b"), vec![remote("a"), remote("b")]);
    assert_eq!(
        between.replace_current_locked("c"),
        SwitchStep::Install { patch: patch("c"), previous: Some("b".into()) }
    );
}

#[test]
fn failed_switch_is_rolled_back_only_while_it_owns_current() {
    let now = store(Some("b"), vec![remote("a"), remote("b")]);
    assert_eq!(
        now.restore_current_if_matches("b", Some("a")),
        SwitchStep::Install { patch: patch("a"), previous: None }
    );
    assert_eq!(now.restore_current_if_matches("b", None), SwitchStep::Done(Ok(None)));
    let overtaken = store(Some("c"), vec![remote("a"), remote("b")]);
    assert_eq!(
        overtaken.restore_current_if_matches("b", Some("a")),
        SwitchStep::Done(Ok(None))
    );
    let unset = store(None, vec![]);
    assert_eq!(unset.restore_current_if_matches("b", Some("a")), SwitchStep::Done(Ok(None)));
}

#[test]
fn import_runs_through_its_steps() {
    let store = store(None, vec![]);
    assert_eq!(
        store.import_url("https://e.com", None),
        ImportStep::Fetch { url: "https://e.com".into(), name: "https://e.com".into() }
    );
    let step = store.import_url("https://e.com", Some("n"));
    assert_eq!(
        step,
        ImportStep::Fetch { url: "https://e.com".into(), name: "n".into() }
    );
    let step = step.fetched(Ok(remote("a")));
    assert_eq!(step, store.append(remote("a")));
    assert_eq!(step, ImportStep::EnsureStorage(remote("a")));
    let step = step.finished(Ok(()));
    assert_eq!(step, ImportStep::AppendItem(remote("a")));
    let step = step.finished(Ok(()));
    assert_eq!(step, ImportStep::Save(remote("a")));
    let step = step.finished(Ok(()));
    assert_eq!(step, ImportStep::Done(Ok(remote("a"))));
    assert_eq!(step.finished(Err("late".into())), ImportStep::Done(Ok(remote("a"))));
}

#[test]
fn import_reports_what_failed_first() {
    let store = store(None, vec![]);
    let fetch = || store.import_url("u", None);
    let append = || store.append(remote("a"));
    assert_eq!(
        fetch().fetched(Err("no route".into())),
        ImportStep::Done(Err(StoreError::FromUrl("no route".into())))
    );
    assert_eq!(
        append().finished(Err("no home".into())),
        ImportStep::Done(Err(StoreError::Storage("no home".into())))
    );
    assert_eq!(
        append().finished(Ok(())).finished(Err("x".into())),
        ImportStep::Done(Err(StoreError::AppendFailed("x".into())))
    );
    let failed = append().finished(Ok(())).finished(Ok(())).finished(Err("y".into()));
    assert_eq!(failed, ImportStep::Done(Err(StoreError::SaveFailed("y".into()))));
    assert_eq!(
        failed.finished(Ok(())),
        ImportStep::Done(Err(StoreError::SaveFailed("y".into())))
    );
    // A report that was not asked for changes nothing.
    assert_eq!(fetch().finished(Ok(())), fetch());
    assert_eq!(append().fetched(Ok(remote("b"))), append());
}

#[test]
fn errors_say_what_happened() {
    for (error, message, cause) in [
        (StoreError::NotFound, "profile not found", None),
        (
            StoreError::NotRemote("m".into()),
            "profile m is not a remote subscription",
            None,
        ),
        (StoreError::MissingUrl, "remote profile is missing url", None),
        (StoreError::FromUrl("a".into()), "a", None),
        (StoreError::Storage("b".into()), "b", None),
        (
            StoreError::UpdateFailed("c".into()),
            "failed to update remote profile",
            Some("c"),
        ),
        (StoreError::AppendFailed("d".into()), "failed to append profile", Some("d")),
        (StoreError::SaveFailed("e".into()), "failed to save profiles.yaml", Some("e")),
        (StoreError::UpdatesFailed("f".into()), "f", None),
    ] {
        assert_eq!(error.message(), message);
        assert_eq!(error.cause().as_deref(), cause);
    }
}

#[test]
fn update_needs_a_subscription_with_an_address() {
    let store = store(Some("a"), vec![item("m", "merge"), item("n", "remote"), remote("a")]);
    let first = |uid: &str| store.update_remote(uid, None);
    assert_eq!(first("x"), UpdateStep::Done(Err(StoreError::NotFound)));
    assert_eq!(first("m"), UpdateStep::Done(Err(StoreError::NotRemote("m".into()))));
    assert_eq!(first("n"), UpdateStep::Done(Err(StoreError::MissingUrl)));
    assert_eq!(
        first("a"),
        UpdateStep::Fetch { uid: "a".into(), url: "https://e.com/a".into() }
    );
}

#[test]
fn update_keeps_the_uid_and_reports_the_current_profile() {
    let store = store(Some("a"), vec![remote("a"), remote("b")]);
    let fetched = PrfItem {
        file_data: Some("proxies: []".into()),
        ..remote("new")
    };
    for (uid, is_current) in [("a", true), ("b", false)] {
        let step = store.update_remote(uid, None);
        let step = store.resume_update(step, UpdateEvent::Fetched(Ok(fetched.clone())));
        assert_eq!(
            step,
            UpdateStep::UpdateItem {
                uid: uid.into(),
                item: PrfItem { uid: Some(uid.into()), ..fetched.clone() },
                is_current,
            }
        );
        let step = store.resume_update(step, UpdateEvent::Updated(Ok(())));
        assert_eq!(step, UpdateStep::Done(Ok(is_current)));
    }
    let step = store.update_remote("a", None);
    let failed = store.resume_update(step, UpdateEvent::Fetched(Err("gone".into())));
    assert_eq!(failed, UpdateStep::Done(Err(StoreError::FromUrl("gone".into()))));
    let step = store.update_remote("a", None);
    let step = store.resume_update(step, UpdateEvent::Fetched(Ok(fetched)));
    let failed = store.resume_update(step, UpdateEvent::Updated(Err("full".into())));
    assert_eq!(failed, UpdateStep::Done(Err(StoreError::UpdateFailed("full".into()))));
    // A report that was not asked for changes nothing.
    let step = store.update_remote("a", None);
    assert_eq!(
        store.resume_update(step, UpdateEvent::Updated(Ok(()))),
        store.update_remote("a", None)
    );
}

/// Runs a row of updates in which the subscriptions in `bad` cannot be fetched.
fn run(store: &ProfileStore, start: BatchStep, bad: &[&str]) -> (Vec<UpdateOutcome>, usize) {
    let mut step = start;
    let mut events = 0;
    loop {
        let batch: Batch = match step {
            BatchStep::Running(batch) => batch,
            BatchStep::Finished(outcomes) => return (outcomes, events),
        };
        let event = match &batch.step {
            UpdateStep::Fetch { uid, url: _ } => UpdateEvent::Fetched(
                if bad.contains(&uid.as_str()) {
                    Err(format!("{uid} is down"))
                } else {
                    Ok(remote("new"))
                },
            ),
            _ => UpdateEvent::Updated(Ok(())),
        };
        events += 1;
        step = store.resume_batch(batch, event);
    }
}

fn profiles() -> ProfileStore {
    store(
        Some("c"),
        vec![remote("a"), item("m", "merge"), remote("b"), item("n", "remote"), remote("c")],
    )
}

#[test]
fn one_bad_subscription_does_not_block_the_rest() {
    let store = profiles();
    let uids: Vec<String> = ["a", "x", "b", "m", "c"].iter().map(|uid| uid.to_string()).collect();
    let (outcomes, events) = run(&store, store.update_remotes_locked(&uids), &["b"]);
    let order: Vec<String> = outcomes.iter().map(|outcome| outcome.uid.clone()).collect();
    assert_eq!(order, uids);
    assert!(events <= 2 * uids.len());
    assert_eq!(events, 5);
    let (updated, failed) = update_report(&outcomes);
    assert_eq!(updated, vec![("a".to_string(), false), ("c".to_string(), true)]);
    assert_eq!(
        failed,
        vec![
            ("x".to_string(), "profile not found".to_string()),
            ("b".to_string(), "b is down".to_string()),
            ("m".to_string(), "profile m is not a remote subscription".to_string()),
        ]
    );
    assert_eq!(updated.len() + failed.len(), uids.len());
}

#[test]
fn update_of_all_reports_the_current_profile_or_every_failure() {
    let store = profiles();
    let (outcomes, _) = run(&store, store.update_all_remote(), &["b"]);
    let order: Vec<&str> = outcomes.iter().map(|outcome| outcome.uid.as_str()).collect();
    assert_eq!(order, vec!["a", "b", "n", "c"]);
    assert_eq!(
        refreshed_current(&outcomes),
        Err(StoreError::UpdatesFailed(
            "b: b is down; n: remote profile is missing url".to_string()
        ))
    );
    let good = self::store(Some("b"), vec![remote("a"), remote("b")]);
    let (outcomes, _) = run(&good, good.update_all_remote(), &[]);
    assert_eq!(refreshed_current(&outcomes), Ok(vec!["b".to_string()]));
    let other = self::store(Some("m"), vec![remote("a"), item("m", "merge")]);
    let (outcomes, _) = run(&other, other.update_all_remote(), &[]);
    assert_eq!(refreshed_current(&outcomes), Ok(vec![]));
    assert_eq!(refreshed_current(&vec![]), Ok(vec![]));
}

#[test]
fn subscriptions_without_uid_are_passed_over() {
    let mut nameless = remote("a");
    nameless.uid = None;
    let store = store(None, vec![nameless, remote("b")]);
    let (outcomes, _) = run(&store, store.update_all_remote(), &[]);
    assert_eq!(outcomes.len(), 1);
    assert_eq!(outcomes[0].uid, "b");
    assert_eq!(store.update_remotes_locked(&[]), BatchStep::Finished(vec![]));
}

#[test]
fn imported_subscription_is_listed_and_updated_from_its_address() {
    let made = clash_profiles::from_url::from_url("https://e.com/s", "s", "proxies: []".into())
        .unwrap();
    let uid = made.uid.clone().unwrap();
    let store = store(None, vec![remote("a"), item("m", "merge"), made.clone()]);
    assert_eq!(store.items(), vec![remote("a"), made]);
    assert_eq!(
        store.update_remote(&uid, None),
        UpdateStep::Fetch { uid, url: "https://e.com/s".into() }
    );
}
