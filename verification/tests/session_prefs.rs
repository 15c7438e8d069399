use vibedev::session_prefs::{load, save, update, Prefs, SaveStep, Saving};

/// The file, in memory.
#[derive(Default)]
struct Disk {
    file: Option<Prefs>,
    temp: Option<Prefs>,
}

impl Disk {
    fn read(&self) -> Option<Prefs> {
        load(self.file.as_ref().map(|p| p.duplicate()))
    }

    /// Takes the steps of writing; the one named fails.
    fn write(&mut self, mut saving: Saving, failing: Option<SaveStep>) -> bool {
        loop {
            let ok = failing != Some(saving.step);
            match saving.step {
                SaveStep::Ended { saved } => return saved,
                SaveStep::WriteTemp if ok => self.temp = Some(saving.prefs.duplicate()),
                SaveStep::Rename if ok => self.file = self.temp.take(),
                _ => {}
            }
            saving.advance(ok);
        }
    }
}

#[test]
fn round_trip_and_empty() {
    let mut disk = Disk::default();
    assert!(disk.read().is_none(), "no file yet");

    // All-None prefs are treated as "no preference".
    disk.write(save(&Prefs::default()), None);
    assert!(disk.file.is_some());
    assert!(disk.read().is_none(), "empty file == no prefs");

    let prefs = Prefs {
        model: Some("big-model-4-5".into()),
        thinking: Some("medium".into()),
        context: Some("200000".into()),
    };
    assert!(disk.write(save(&prefs), None));
    assert_eq!(disk.read().expect("loaded"), prefs);

    // a partial update should not clobber other fields
    let stored = disk.read();
    let saving = update(stored, |mut p: Prefs| {
        p.thinking = Some("high".into());
        p
    });
    disk.write(saving.expect("changed"), None);
    let updated = disk.read().expect("loaded");
    assert_eq!(updated.model.as_deref(), Some("big-model-4-5"));
    assert_eq!(updated.thinking.as_deref(), Some("high"));
    assert_eq!(updated.context.as_deref(), Some("200000"));
}

#[test]
fn an_update_that_changes_nothing_is_not_written() {
    let stored = Some(Prefs { model: Some("m".into()), thinking: None, context: None });
    assert!(update(stored, |p: Prefs| p).is_none());
    assert!(update(None, |p: Prefs| p).is_none());
}

#[test]
fn the_file_is_replaced_whole() {
    let old = Prefs { model: Some("old".into()), thinking: None, context: None };
    let new = Prefs { model: Some("new".into()), thinking: None, context: None };
    for failing in [SaveStep::CreateDir, SaveStep::WriteTemp, SaveStep::Sync, SaveStep::Rename] {
        let mut disk = Disk { file: Some(old.duplicate()), temp: None };
        assert!(!disk.write(save(&new), Some(failing)));
        assert_eq!(disk.read(), Some(old.duplicate()));
    }
}

#[test]
fn emptiness_needs_every_choice_missing() {
    assert!(Prefs::default().is_empty());
    let one = Prefs { model: None, thinking: None, context: Some("1".into()) };
    assert!(!one.is_empty());
    assert!(!one.same_as(&Prefs::default()));
}
