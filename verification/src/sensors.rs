//! Finding the temperature sensors among the hwmon devices.
use vstd::prelude::*;
use crate::text::{chars_of, eq_str, trim, trimmed};

verus! {

/// A temperature sensor the widgets show.
#[derive(Clone, Copy, PartialEq, Eq, Structural, Debug)]
pub enum Sensor {
    Cpu,
    Gpu,
    Nvme,
}

/// A hwmon device: its directory and the text of its `name` file (empty
/// when that cannot be read).
pub struct HwmonEntry {
    pub dir: String,
    pub name: String,
}

/// The sensor a hwmon device provides, by its trimmed name: `k10temp` the
/// CPU, `amdgpu` the GPU, `nvme` the SSD.
pub open spec fn sensor_of(name: Seq<char>) -> Option<Sensor> {
    let n = trim(name);
    if n == "k10temp"@ {
        Some(Sensor::Cpu)
    } else if n == "amdgpu"@ {
        Some(Sensor::Gpu)
    } else if n == "nvme"@ {
        Some(Sensor::Nvme)
    } else {
        None
    }
}

/// `dir` joined with `file`, as `Path::join` joins a relative name.
pub open spec fn path_join(dir: Seq<char>, file: Seq<char>) -> Seq<char> {
    if dir.len() == 0 {
        file
    } else if dir.last() == '/' {
        dir + file
    } else {
        dir + seq!['/'] + file
    }
}

/// The reading file of the last device in `es` that provides `s`.
pub open spec fn sensor_file(es: Seq<HwmonEntry>, s: Sensor) -> Option<Seq<char>>
    decreases es.len(),
{
    if es.len() == 0 {
        None
    } else if sensor_of(es.last().name@) == Some(s) {
        Some(path_join(es.last().dir@, "temp1_input"@))
    } else {
        sensor_file(es.drop_last(), s)
    }
}

/// The files the temperatures are read from; an empty path stands for a
/// sensor that was not found.
pub struct TempReader {
    cpu_path: String,
    gpu_path: String,
    nvme_path: String,
}

/// A path, or the empty path for none.
pub open spec fn or_empty(p: Option<Seq<char>>) -> Seq<char> {
    match p {
        Some(x) => x,
        None => Seq::empty(),
    }
}

fn join(dir: &String, file: &str) -> (p: String)
    ensures
        p@ == path_join(dir@, file@),
{
    let n = dir.as_str().unicode_len();
    let mut p = dir.clone();
    if n == 0 {
        return String::from_str(file);
    }
    if dir.as_str().get_char(n - 1) != '/' {
        p.append("/");
        proof {
            reveal_strlit("/");
            assert("/"@ =~= seq!['/']);
        }
    }
    p.append(file);
    p
}

impl TempReader {
    /// Picks the sensors out of the hwmon devices, the last device of a kind
    /// winning; none without a CPU sensor.
    pub fn discover(entries: &Vec<HwmonEntry>) -> (r: Option<TempReader>)
        ensures
            r is None <==> sensor_file(entries@, Sensor::Cpu) is None,
            r matches Some(t) ==> {
                &&& t.path(Sensor::Cpu) == or_empty(sensor_file(entries@, Sensor::Cpu))
                &&& t.path(Sensor::Gpu) == or_empty(sensor_file(entries@, Sensor::Gpu))
                &&& t.path(Sensor::Nvme) == or_empty(sensor_file(entries@, Sensor::Nvme))
            },
    {
        let mut cpu: Option<String> = None;
        let mut gpu: Option<String> = None;
        let mut nvme: Option<String> = None;
        let mut i: usize = 0;
        while i < entries.len()
            invariant
                i <= entries.len(),
                view_of(cpu) == sensor_file(entries@.take(i as int), Sensor::Cpu),
                view_of(gpu) == sensor_file(entries@.take(i as int), Sensor::Gpu),
                view_of(nvme) == sensor_file(entries@.take(i as int), Sensor::Nvme),
            decreases entries.len() - i,
        {
            proof {
                assert(entries@.take(i + 1).drop_last() =~= entries@.take(i as int));
                assert(entries@.take(i + 1).last() == entries@[i as int]);
            }
            let e = &entries[i];
            let name = chars_of(e.name.as_str());
            let n = trimmed(&name);
            proof {
                reveal_strlit("k10temp");
                reveal_strlit("amdgpu");
                reveal_strlit("nvme");
            }
            if eq_str(&n, "k10temp") {
                cpu = Some(join(&e.dir, "temp1_input"));
            } else if eq_str(&n, "amdgpu") {
                gpu = Some(join(&e.dir, "temp1_input"));
            } else if eq_str(&n, "nvme") {
                nvme = Some(join(&e.dir, "temp1_input"));
            }
            i = i + 1;
        }
        proof {
            assert(entries@.take(entries.len() as int) =~= entries@);
        }
        match cpu {
            Some(c) => Some(
                TempReader {
                    cpu_path: c,
                    gpu_path: match gpu {
                        Some(g) => g,
                        None => String::new(),
                    },
                    nvme_path: match nvme {
                        Some(v) => v,
                        None => String::new(),
                    },
                },
            ),
            None => None,
        }
    }

    /// The file a sensor is read from; empty when it was not found.
    pub closed spec fn path(&self, s: Sensor) -> Seq<char> {
        match s {
            Sensor::Cpu => self.cpu_path@,
            Sensor::Gpu => self.gpu_path@,
            Sensor::Nvme => self.nvme_path@,
        }
    }

    /// The file to read a sensor from, or `None` for a sensor not found.
    pub fn sensor_path(&self, s: Sensor) -> (r: Option<String>)
        ensures
            r is None <==> self.path(s).len() == 0,
            r matches Some(p) ==> p@ == self.path(s),
    {
        let p = match s {
            Sensor::Cpu => &self.cpu_path,
            Sensor::Gpu => &self.gpu_path,
            Sensor::Nvme => &self.nvme_path,
        };
        if p.as_str().is_empty() {
            None
        } else {
            Some(p.clone())
        }
    }
}

/// An optional path, viewed as characters.
pub open spec fn view_of(p: Option<String>) -> Option<Seq<char>> {
    match p {
        Some(s) => Some(s@),
        None => None,
    }
}

} // verus!
