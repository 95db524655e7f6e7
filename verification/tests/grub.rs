use std::collections::BTreeMap;

use predator_sense::privileged::constants::{GRUB2_MKCONFIG, UPDATE_GRUB};
use predator_sense::privileged::grub::{
    check_generated, check_image, detect_grub, grub_fs_root, parent, reset_defaults,
    reset_regenerates, splash_path, splash_start, splash_step, staged_candidates,
    strip_managed_background_line, upsert_background_line, GrubFacts, GrubLayout, SplashStage,
};
use predator_sense::protocol::base64_lite;
use predator_sense::protocol::grub_splash;

#[test]
fn strip_managed_background_line_leaves_a_foreign_background_line_alone() {
    let content = "GRUB_TIMEOUT=5\nGRUB_BACKGROUND=\"/home/user/my-own-wallpaper.png\"\nGRUB_CMDLINE_LINUX=\"\"\n";

    let stripped = strip_managed_background_line(content, "predator-sense-splash");

    assert_eq!(stripped, content);
}

#[test]
fn strip_managed_background_line_removes_only_lines_carrying_the_marker() {
    let content = "GRUB_TIMEOUT=5\n#GRUB_BACKGROUND=\"/boot/grub/predator-sense-splash.png\"\nGRUB_BACKGROUND=\"/boot/grub/predator-sense-splash.jpg\"\nGRUB_CMDLINE_LINUX=\"\"\n";

    let stripped = strip_managed_background_line(content, "predator-sense-splash");

    assert_eq!(stripped, "GRUB_TIMEOUT=5\nGRUB_CMDLINE_LINUX=\"\"\n");
}

#[test]
fn upsert_background_line_is_idempotent() {
    let content = "GRUB_TIMEOUT=5\n";

    let once = upsert_background_line(
        content,
        "predator-sense-splash",
        "/boot/grub/predator-sense-splash.png",
    );
    let twice = upsert_background_line(
        &once,
        "predator-sense-splash",
        "/boot/grub/predator-sense-splash.png",
    );

    assert_eq!(once, twice);
    assert_eq!(
        once,
        "GRUB_TIMEOUT=5\nGRUB_BACKGROUND=\"/boot/grub/predator-sense-splash.png\"\n"
    );
}

#[test]
fn stripping_undoes_an_upsert() {
    let content = "GRUB_TIMEOUT=5\nGRUB_BACKGROUND=\"/home/user/mine.png\"\n";
    let edited = upsert_background_line(content, "marker", "/boot/grub/marker.png");
    assert_ne!(edited, content);
    assert_eq!(strip_managed_background_line(&edited, "marker"), content);
}

/// A root file system in memory.
struct Root {
    root: String,
    files: BTreeMap<String, Vec<u8>>,
    programs: Vec<&'static str>,
}

impl Root {
    fn new(programs: &[&'static str]) -> Self {
        Root {
            root: "/fixture".to_string(),
            files: BTreeMap::new(),
            programs: programs.to_vec(),
        }
    }

    fn write(&mut self, relative: &str, value: &str) {
        self.files.insert(
            format!("{}/{relative}", self.root),
            format!("{value}\n").into_bytes(),
        );
    }

    fn text(&self, path: &str) -> Option<String> {
        self.files
            .get(path)
            .map(|bytes| String::from_utf8(bytes.clone()).unwrap())
    }

    fn defaults(&self) -> String {
        self.text("/fixture/etc/default/grub").unwrap()
    }

    fn detect(&self) -> Result<GrubLayout, String> {
        let has = |path: &str| self.files.contains_key(&format!("{}/{path}", self.root));
        let runs = |name: &str| self.programs.contains(&name);
        detect_grub(
            &self.root,
            &GrubFacts {
                debian_cfg: has("boot/grub/grub.cfg"),
                fedora_cfg: has("boot/grub2/grub.cfg"),
                update_grub: runs("update-grub"),
                grub2_mkconfig: runs("grub2-mkconfig"),
                grub_mkconfig: runs("grub-mkconfig"),
            },
        )
    }

    fn apply(
        &mut self,
        extension: &str,
        payload: &str,
        regen: &mut dyn FnMut(&mut Root, &str, &[String]) -> Result<(), String>,
    ) -> Result<(), String> {
        let image = check_image(extension, payload)?;
        let layout = self.detect()?;
        let splash = splash_path(&layout.cfg_path, extension)?;
        let defaults_path = format!("{}/etc/default/grub", self.root);
        let backup_path = format!("{}/etc/default/grub.predator-sense-bak", self.root);
        let previous = self.text(&defaults_path).unwrap_or_default();
        let edited = upsert_background_line(&previous, grub_splash::MARKER, &splash);
        let mut stage = splash_start(self.files.contains_key(&backup_path));
        loop {
            let result = match &stage {
                SplashStage::Backup => {
                    self.files
                        .insert(backup_path.clone(), previous.clone().into_bytes());
                    Ok(())
                }
                SplashStage::Image => {
                    self.files.insert(splash.clone(), image.clone());
                    Ok(())
                }
                SplashStage::Defaults => {
                    self.files
                        .insert(defaults_path.clone(), edited.clone().into_bytes());
                    Ok(())
                }
                SplashStage::Regenerate => regen(self, &layout.program, &layout.args),
                SplashStage::PutDefaultsBack(_) => {
                    self.files
                        .insert(defaults_path.clone(), previous.clone().into_bytes());
                    Ok(())
                }
                SplashStage::RemoveImage(_) => {
                    self.files.remove(&splash);
                    Ok(())
                }
                SplashStage::Check => check_generated(&self.text(&layout.cfg_path), &splash),
                SplashStage::Finished(_) => break,
            };
            stage = splash_step(stage, result);
        }
        match stage {
            SplashStage::Finished(result) => result,
            _ => panic!("applying a splash has an outcome"),
        }
    }

    fn reset(
        &mut self,
        regen: &mut dyn FnMut(&str, &[String]) -> Result<(), String>,
    ) -> Result<(), String> {
        let defaults_path = format!("{}/etc/default/grub", self.root);
        let stripped = reset_defaults(&self.text(&defaults_path));
        let changed = stripped.is_some();
        if let Some(stripped) = stripped {
            self.files.insert(defaults_path, stripped.into_bytes());
        }
        let layout = self.detect().ok();
        let mut removed = false;
        if let Some(layout) = &layout {
            for candidate in staged_candidates(&layout.cfg_path) {
                removed = self.files.remove(&candidate).is_some() || removed;
            }
        }
        if !reset_regenerates(changed, removed, layout.is_some()) {
            return Ok(());
        }
        let layout = layout.unwrap();
        regen(&layout.program, &layout.args)
    }
}

#[test]
fn detect_grub_prefers_update_grub_when_present() {
    let mut root = Root::new(&["update-grub"]);
    root.write("boot/grub/grub.cfg", "# generated");

    let layout = root.detect().unwrap();

    assert_eq!(layout.program, UPDATE_GRUB);
    assert!(layout.args.is_empty());
}

#[test]
fn detect_grub_falls_back_to_the_mkconfig_generators_with_an_output_flag() {
    let mut root = Root::new(&["grub2-mkconfig"]);
    root.write("boot/grub2/grub.cfg", "# generated");

    let layout = root.detect().unwrap();

    assert_eq!(layout.program, GRUB2_MKCONFIG);
    assert_eq!(layout.args[0], "-o");
    assert!(layout.args[1].ends_with("boot/grub2/grub.cfg"));
}

#[test]
fn detect_grub_fails_closed_when_nothing_is_found() {
    let mut root = Root::new(&[]);
    assert!(root.detect().is_err());

    // A generator on PATH does not help without a grub.cfg to point it
    // at - this app never guesses where one belongs.
    root.write("boot/grub/grub.cfg", "# generated");
    assert!(root.detect().is_err());
}

#[test]
fn grub_splash_apply_writes_the_image_edits_defaults_and_verifies_regeneration() {
    let mut root = Root::new(&["grub-mkconfig"]);
    root.write("boot/grub/grub.cfg", "# stock config\n");
    root.write("etc/default/grub", "GRUB_TIMEOUT=5");
    let cfg_path = "/fixture/boot/grub/grub.cfg";
    let splash_path = "/fixture/boot/grub/predator-sense-splash.png";

    let payload = base64_lite::encode(b"not a real png, just test bytes");
    let mut regen_calls = Vec::new();
    root.apply("png", &payload, &mut |root, program, args| {
        regen_calls.push((program.to_string(), args.join(" ")));
        root.files.insert(
            cfg_path.to_string(),
            format!("background_image {splash_path}\n").into_bytes(),
        );
        Ok(())
    })
    .unwrap();

    assert_eq!(
        root.files[splash_path],
        b"not a real png, just test bytes"
    );
    let defaults = root.defaults();
    assert!(defaults.contains("GRUB_TIMEOUT=5"));
    assert!(defaults.contains(&format!("GRUB_BACKGROUND=\"{splash_path}\"")));
    assert!(root
        .files
        .contains_key("/fixture/etc/default/grub.predator-sense-bak"));
    assert_eq!(regen_calls.len(), 1);
    assert_eq!(regen_calls[0].0, "grub-mkconfig");
}

#[test]
fn grub_splash_apply_rolls_back_defaults_and_the_image_when_regeneration_fails() {
    let mut root = Root::new(&["update-grub"]);
    root.write("boot/grub/grub.cfg", "# stock config\n");
    root.write("etc/default/grub", "GRUB_TIMEOUT=5");
    let payload = base64_lite::encode(b"irrelevant");

    let result = root.apply("png", &payload, &mut |_, _, _| {
        Err("simulated regeneration failure".to_string())
    });

    assert!(result.is_err());
    assert_eq!(root.defaults(), "GRUB_TIMEOUT=5\n");
    assert!(!root
        .files
        .contains_key("/fixture/boot/grub/predator-sense-splash.png"));
}

#[test]
fn grub_splash_apply_fails_when_the_generated_config_omits_the_splash() {
    let mut root = Root::new(&["update-grub"]);
    root.write("boot/grub/grub.cfg", "# stock config\n");
    root.write("etc/default/grub", "GRUB_TIMEOUT=5");
    let payload = base64_lite::encode(b"irrelevant");

    // Regeneration "succeeds" but never touches grub.cfg - simulates
    // a GRUB build without the png/jpeg modules.
    let result = root.apply("png", &payload, &mut |_, _, _| Ok(()));

    let error = result.unwrap_err();
    assert!(
        error.contains("does not reference the splash image"),
        "{error}"
    );
}

#[test]
fn grub_splash_apply_rejects_an_unsupported_extension_before_touching_anything() {
    let mut root = Root::new(&["update-grub", "grub-mkconfig", "grub2-mkconfig"]);
    root.write("boot/grub/grub.cfg", "# stock config\n");
    root.write("etc/default/grub", "GRUB_TIMEOUT=5");

    let result = root.apply("bmp", &base64_lite::encode(b"irrelevant"), &mut |_, _, _| {
        panic!("must not shell out for a rejected extension")
    });

    assert!(result.is_err());
    assert_eq!(root.defaults(), "GRUB_TIMEOUT=5\n");
}

#[test]
fn images_are_checked_before_anything_is_touched() {
    assert!(check_image("png", "not base64").is_err());
    assert_eq!(check_image("png", "Zm9v").unwrap(), b"foo");
    let large = vec![0u8; grub_splash::MAX_IMAGE_BYTES + 1];
    assert!(check_image("png", &base64_lite::encode(&large)).is_err());
}

#[test]
fn grub_splash_reset_is_a_no_op_when_nothing_was_ever_applied() {
    let mut root = Root::new(&["update-grub", "grub-mkconfig", "grub2-mkconfig"]);
    root.write("boot/grub/grub.cfg", "# stock config\n");
    root.write("etc/default/grub", "GRUB_TIMEOUT=5");

    root.reset(&mut |_, _| panic!("must not regenerate when nothing changed"))
        .unwrap();

    assert_eq!(root.defaults(), "GRUB_TIMEOUT=5\n");
}

#[test]
fn grub_splash_reset_strips_the_line_removes_the_image_and_regenerates() {
    let mut root = Root::new(&["update-grub"]);
    root.write("boot/grub/grub.cfg", "# stock config\n");
    let splash_path = "/fixture/boot/grub/predator-sense-splash.jpg";
    root.write("boot/grub/predator-sense-splash.jpg", "fake");
    root.write(
        "etc/default/grub",
        &format!("GRUB_TIMEOUT=5\nGRUB_BACKGROUND=\"{splash_path}\""),
    );

    let mut regenerated = false;
    root.reset(&mut |_, _| {
        regenerated = true;
        Ok(())
    })
    .unwrap();

    assert!(regenerated);
    assert!(!root.files.contains_key(splash_path));
    assert_eq!(root.defaults(), "GRUB_TIMEOUT=5\n");
}

#[test]
fn the_file_system_root_is_where_sysfs_is_mounted() {
    assert_eq!(grub_fs_root("/sys"), "/");
    assert_eq!(grub_fs_root("/fixture/sys"), "/fixture");
    assert_eq!(parent("/boot/grub/grub.cfg").as_deref(), Some("/boot/grub"));
    assert_eq!(parent("/"), None);
}
