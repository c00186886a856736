use serde_json::Value;
use spring_starter::json::Json;
use spring_starter::steps::{Item, MetadataError, Step, StepKind};

fn to_json(v: &Value) -> Json {
    match v {
        Value::Null => Json::Null,
        Value::Bool(b) => Json::Bool(*b),
        Value::Number(n) => Json::Number(n.to_string()),
        Value::String(s) => Json::Str(s.clone()),
        Value::Array(a) => Json::Array(a.iter().map(to_json).collect()),
        Value::Object(m) => Json::Object(m.iter().map(|(k, v)| (k.clone(), to_json(v))).collect()),
    }
}

fn doc(text: &str) -> Json {
    let value: Value = serde_json::from_str(text).expect("test document is valid JSON");
    to_json(&value)
}

#[test]
fn test_text() {
    let json = doc(r#"{
  "groupeId": {
    "id": "groupeId",
    "type": "TEXT",
    "content": "test"
  }
}"#);
    let steps = Step::from_json(json);
    assert!(steps.is_ok());
    let steps = steps.unwrap();

    assert_eq!(steps.len(), 1);
    assert_eq!(
        steps[0],
        Step {
            name: "groupeId".to_owned(),
            kind: StepKind::Text {
                default: "test".to_owned()
            }
        }
    );
}

#[test]
fn test_simple_parse() {
    let json = doc(r#"{
  "languages": {
    "id": "language",
    "type": "SINGLE_SELECT",
    "title": "Language",
    "description": "programming language",
    "content": [
      {
        "name": "Java",
        "id": "java",
        "default": true
      },
      {
        "name": "Kotlin",
        "id": "kotlin",
        "default": false
      },
      {
        "name": "Groovy",
        "id": "groovy",
        "default": false
      }
    ]
  }
}"#);
    let steps = Step::from_json(json);
    assert!(steps.is_ok());
    let steps = steps.unwrap();

    assert_eq!(steps.len(), 1);
    assert_eq!(
        steps[0],
        Step {
            name: "language".to_string(),
            kind: StepKind::SingleSelect {
                default: "java".to_string(),
                values: vec![
                    Item::new_default("java".to_owned(), "Java".to_owned()),
                    Item::new_default("kotlin".to_owned(), "Kotlin".to_owned()),
                    Item::new_default("groovy".to_owned(), "Groovy".to_owned())
                ]
            }
        }
    );
}

#[test]
fn test_multi_select_parse() {
    let json = doc(r#"{
  "dependencies": {
    "id": "dependencies",
    "type": "HIERARCHICAL_MULTI_SELECT",
    "content": [
      {
        "name": "Deps",
        "content": [
          {
            "name": "GraalVM Native Support",
            "id": "native"
          }
        ]
      }
    ]
  }
}"#);
    let steps = Step::from_json(json);
    assert!(steps.is_ok());
    let steps = steps.unwrap();

    assert_eq!(steps.len(), 1);
    assert_eq!(
        steps[0],
        Step {
            name: "dependencies".to_string(),
            kind: StepKind::MultiSelect {
                values: vec![Item::new_dependency(
                    "native".to_string(),
                    "GraalVM Native Support".to_owned(),
                    "Deps".to_string(),
                )]
            }
        }
    );
}

#[test]
fn test_action_parse() {
    let json = doc(r#"{
  "types": {
    "id": "type",
    "type": "ACTION",
    "content": [
      {
        "name": "Gradle - Groovy",
        "id": "gradle-project",
        "action": "/starter.zip",
        "default": true
      }
    ]
  }
}"#);
    let steps = Step::from_json(json);
    assert!(steps.is_ok());
    let steps = steps.unwrap();

    assert_eq!(steps.len(), 1);
    assert_eq!(
        steps[0],
        Step {
            name: "type".to_string(),
            kind: StepKind::Action {
                default: "gradle-project".to_owned(),
                values: vec![Item::new_action(
                    "gradle-project".to_owned(),
                    "Gradle - Groovy".to_owned(),
                    "/starter.zip".to_owned()
                )]
            }
        }
    );
}

#[test]
fn test_multible_parse() {
    let json = doc(r#"{
  "languages": {
    "id": "language",
    "type": "SINGLE_SELECT",
    "content": [
      {
        "id": "java",
        "name": "Java",
        "default": true
      },
      {
        "id": "kotlin",
        "name": "Kotlin",
        "default": false
      },
      {
        "id": "groovy",
        "name": "Groovy",
        "default": false
      }
    ]
  },
  "deps": {
    "id": "dep",
    "type": "TEXT",
    "content": "test"
  }
}"#);
    let steps = Step::from_json(json);
    assert!(steps.is_ok());
    let steps = steps.unwrap();

    assert_eq!(steps.len(), 2);

    for s in steps.iter() {
        match &s.kind {
            StepKind::Text { default } => {
                assert_eq!(&s.name, &"dep".to_owned());
                assert_eq!(default, &"test".to_owned());
            }
            StepKind::SingleSelect { default, values } => {
                assert_eq!(&s.name, &"language".to_owned());
                assert_eq!(default, &"java".to_owned());
                assert_eq!(
                    values,
                    &vec![
                        Item::new_default("java".to_owned(), "Java".to_owned()),
                        Item::new_default("kotlin".to_owned(), "Kotlin".to_owned()),
                        Item::new_default("groovy".to_owned(), "Groovy".to_owned())
                    ]
                );
            }
            StepKind::Action { .. } => {
                panic!("not in test data")
            }
            StepKind::MultiSelect { .. } => {
                panic!("not in test data")
            }
        }
    }
}

#[test]
fn test_with_start_spring_response() {
    let json = doc(r#"{
  "configuration": {
    "env": {
      "artifactRepository": "https://repo.spring.io/release/",
      "springBootMetadataUrl": "https://api.spring.io/projects/spring-boot/releases",
      "googleAnalyticsTrackingCode": null,
      "fallbackApplicationName": "Application",
      "kotlin": {
        "defaultVersion": null,
        "mappings": []
      },
      "maven": {
        "parent": {
          "groupId": null,
          "artifactId": null,
          "version": null,
          "relativePath": "",
          "includeSpringBootBom": false
        }
      },
      "platform": {
        "compatibilityRange": "3.3.0",
        "v1FormatCompatibilityRange": null,
        "v2FormatCompatibilityRange": null
      }
    }
  },
  "dependencies": {
    "id": "dependencies",
    "type": "HIERARCHICAL_MULTI_SELECT",
    "title": "Project dependencies",
    "description": "dependency identifiers (comma-separated)",
    "content": [
      {
        "name": "Developer Tools",
        "content": [
          {
            "name": "GraalVM Native Support",
            "id": "native",
            "groupId": "org.springframework.boot",
            "artifactId": "spring-boot",
            "scope": "compile",
            "description": "Support for compiling Spring applications to native executables using the GraalVM native-image compiler.",
            "starter": false
          },
          {
            "name": "GraphQL DGS Code Generation",
            "id": "dgs-codegen",
            "groupId": "com.netflix.graphql.dgs.codegen",
            "artifactId": "graphql-dgs-codegen-gradle",
            "version": "7.0.3",
            "scope": "compile",
            "description": "Generate data types and type-safe APIs for querying GraphQL APIs by parsing schema files.",
            "starter": false
          },
          {
            "name": "Spring Boot DevTools",
            "id": "devtools",
            "groupId": "org.springframework.boot",
            "artifactId": "spring-boot-devtools",
            "scope": "runtime",
            "description": "Provides fast application restarts, LiveReload, and configurations for enhanced development experience.",
            "starter": false
          },
          {
            "name": "Lombok",
            "id": "lombok",
            "groupId": "org.projectlombok",
            "artifactId": "lombok",
            "scope": "annotationProcessor",
            "description": "Java annotation library which helps to reduce boilerplate code.",
            "starter": false
          },
          {
            "name": "Spring Configuration Processor",
            "id": "configuration-processor",
            "groupId": "org.springframework.boot",
            "artifactId": "spring-boot-configuration-processor",
            "scope": "annotationProcessor",
            "description": "Generate metadata for developers to offer contextual help and \"code completion\" when working with custom configuration keys (ex.application.properties/.yml files).",
            "starter": false
          },
          {
            "name": "Docker Compose Support",
            "id": "docker-compose",
            "groupId": "org.springframework.boot",
            "artifactId": "spring-boot-docker-compose",
            "scope": "runtime",
            "description": "Provides docker compose support for enhanced development experience.",
            "starter": false
          },
          {
            "name": "Spring Modulith",
            "id": "modulith",
            "groupId": "org.springframework.modulith",
            "artifactId": "spring-modulith-starter-core",
            "scope": "compile",
            "description": "Support for building modular monolithic applications.",
            "compatibilityRange": "[3.3.0,3.5.0-M1)",
            "bom": "spring-modulith",
            "starter": true
          }
        ]
      },
      {
        "name": "Web",
        "content": [
          {
            "name": "Spring Web",
            "id": "web",
            "facets": [
              "web",
              "json"
            ],
            "groupId": "org.springframework.boot",
            "artifactId": "spring-boot-starter-web",
            "scope": "compile",
            "description": "Build web, including RESTful, applications using Spring MVC. Uses Apache Tomcat as the default embedded container.",
            "starter": true,
            "links": [
              {
                "rel": "guide",
                "href": "https://spring.io/guides/gs/rest-service/",
                "description": "Building a RESTful Web Service"
              },
              {
                "rel": "reference",
                "href": "https://docs.spring.io/spring-boot/{bootVersion}/reference/web/servlet.html",
                "templated": true
              },
              {
                "rel": "guide",
                "href": "https://spring.io/guides/gs/serving-web-content/",
                "description": "Serving Web Content with Spring MVC"
              },
              {
                "rel": "guide",
                "href": "https://spring.io/guides/tutorials/rest/",
                "description": "Building REST services with Spring"
              }
            ]
          }
        ]
      }
    ]
  },
  "types": {
    "id": "type",
    "type": "ACTION",
    "title": "Type",
    "description": "project type",
    "content": [
      {
        "name": "Gradle - Groovy",
        "id": "gradle-project",
        "description": "Generate a Gradle based project archive using the Groovy DSL.",
        "action": "/starter.zip",
        "tags": {
          "build": "gradle",
          "dialect": "groovy",
          "format": "project"
        },
        "default": true
      },
      {
        "name": "Gradle - Kotlin",
        "id": "gradle-project-kotlin",
        "description": "Generate a Gradle based project archive using the Kotlin DSL.",
        "action": "/starter.zip",
        "tags": {
          "build": "gradle",
          "dialect": "kotlin",
          "format": "project"
        },
        "default": false
      },
      {
        "name": "Gradle Config",
        "id": "gradle-build",
        "description": "Generate a Gradle build file.",
        "action": "/build.gradle",
        "tags": {
          "build": "gradle",
          "format": "build"
        },
        "default": false
      },
      {
        "name": "Maven",
        "id": "maven-project",
        "description": "Generate a Maven based project archive.",
        "action": "/starter.zip",
        "tags": {
          "build": "maven",
          "format": "project"
        },
        "default": false
      },
      {
        "name": "Maven POM",
        "id": "maven-build",
        "description": "Generate a Maven pom.xml.",
        "action": "/pom.xml",
        "tags": {
          "build": "maven",
          "format": "build"
        },
        "default": false
      }
    ]
  },
  "bootVersions": {
    "id": "bootVersion",
    "type": "SINGLE_SELECT",
    "title": "Spring Boot Version",
    "description": "spring boot version",
    "content": [
      {
        "name": "3.5.0 (SNAPSHOT)",
        "id": "3.5.0-SNAPSHOT",
        "default": false
      },
      {
        "name": "3.5.0 (M1)",
        "id": "3.5.0-M1",
        "default": false
      },
      {
        "name": "3.4.3 (SNAPSHOT)",
        "id": "3.4.3-SNAPSHOT",
        "default": false
      },
      {
        "name": "3.4.2",
        "id": "3.4.2",
        "default": true
      },
      {
        "name": "3.3.9 (SNAPSHOT)",
        "id": "3.3.9-SNAPSHOT",
        "default": false
      },
      {
        "name": "3.3.8",
        "id": "3.3.8",
        "default": false
      }
    ]
  },
  "packagings": {
    "id": "packaging",
    "type": "SINGLE_SELECT",
    "title": "Packaging",
    "description": "project packaging",
    "content": [
      {
        "name": "Jar",
        "id": "jar",
        "default": true
      },
      {
        "name": "War",
        "id": "war",
        "default": false
      }
    ]
  },
  "javaVersions": {
    "id": "javaVersion",
    "type": "SINGLE_SELECT",
    "title": "Java Version",
    "description": "language level",
    "content": [
      {
        "name": "23",
        "id": "23",
        "default": false
      },
      {
        "name": "21",
        "id": "21",
        "default": false
      },
      {
        "name": "17",
        "id": "17",
        "default": true
      }
    ]
  },
  "languages": {
    "id": "language",
    "type": "SINGLE_SELECT",
    "title": "Language",
    "description": "programming language",
    "content": [
      {
        "name": "Java",
        "id": "java",
        "default": true
      },
      {
        "name": "Kotlin",
        "id": "kotlin",
        "default": false
      },
      {
        "name": "Groovy",
        "id": "groovy",
        "default": false
      }
    ]
  },
  "name": {
    "id": "name",
    "type": "TEXT",
    "title": "Name",
    "description": "project name (infer application name)",
    "content": "demo"
  },
  "description": {
    "id": "description",
    "type": "TEXT",
    "title": "Description",
    "description": "project description",
    "content": "Demo project for Spring Boot"
  },
  "groupId": {
    "id": "groupId",
    "type": "TEXT",
    "title": "Group",
    "description": "project coordinates",
    "content": "com.example"
  },
  "artifactId": {
    "id": "artifactId",
    "type": "TEXT",
    "title": "Artifact",
    "description": "project coordinates (infer archive name)",
    "content": "demo"
  },
  "version": {
    "id": "version",
    "type": "TEXT",
    "title": "Version",
    "description": "project version",
    "content": "0.0.1-SNAPSHOT"
  },
  "packageName": {
    "id": "packageName",
    "type": "TEXT",
    "title": "Package Name",
    "description": "root package",
    "content": "com.example.demo"
  }
}"#);
    let steps = Step::from_json(json);
    assert!(steps.is_ok());
    let steps = steps.unwrap();

    assert_eq!(steps.len(), 12);
}

#[test]
fn parses_example_language_step() {
    let json = doc(
        r#"{"lang": {"id":"language","type":"SINGLE_SELECT","content":[{"id":"java","name":"Java","default":true},{"id":"kotlin","name":"Kotlin","default":false}]}}"#,
    );
    let steps = Step::from_json(json).expect("parses");
    assert_eq!(steps.len(), 1);
    assert_eq!(steps[0].name, "language");
    match &steps[0].kind {
        StepKind::SingleSelect { default, values } => {
            assert_eq!(default, "java");
            assert_eq!(values.len(), 2);
            assert_eq!(values[1], Item::new_default("kotlin".to_owned(), "Kotlin".to_owned()));
        }
        other => panic!("unexpected kind {:?}", other),
    }
}

#[test]
fn parsing_twice_gives_same_steps() {
    let text = r#"{"b": {"type":"TEXT","content":"x"}, "a": {"id":"packaging","type":"SINGLE_SELECT","content":[{"id":"jar","name":"Jar","default":true}]}}"#;
    let first = Step::from_json(doc(text)).expect("parses");
    let second = Step::from_json(doc(text)).expect("parses");
    assert_eq!(first, second);
}

#[test]
fn unrecognised_types_are_dropped_in_order() {
    let with_unknown = doc(
        r#"{"a": {"type":"TEXT","content":"1"}, "b": {"type":"SLIDER","content":[1,2]}, "c": {"type":"TEXT","content":"3"}, "d": {"title":"no type"}}"#,
    );
    let without = doc(r#"{"a": {"type":"TEXT","content":"1"}, "c": {"type":"TEXT","content":"3"}}"#);
    let steps = Step::from_json(with_unknown).expect("parses");
    assert_eq!(steps, Step::from_json(without).expect("parses"));
    let names: Vec<&str> = steps.iter().map(|s| s.name.as_str()).collect();
    assert_eq!(names, vec!["a", "c"]);
}

#[test]
fn reserved_keys_are_skipped() {
    let json = doc(
        r#"{"configuration": {"type":"TEXT","content":"x"}, "_links": {"type":"TEXT","content":"y"}, "name": {"type":"TEXT","content":"demo"}}"#,
    );
    let steps = Step::from_json(json).expect("parses");
    assert_eq!(steps.len(), 1);
    assert_eq!(steps[0].name, "name");
}

#[test]
fn document_must_be_object() {
    assert_eq!(Step::from_json(doc("[1, 2]")), Err(MetadataError::NotAnObject));
    assert_eq!(Step::from_json(Json::Null), Err(MetadataError::NotAnObject));
}

#[test]
fn empty_document_has_no_steps() {
    assert_eq!(Step::from_json(doc("{}")), Ok(vec![]));
}

#[test]
fn missing_content_is_malformed() {
    let json = doc(r#"{"x": {"id":"x","type":"SINGLE_SELECT"}}"#);
    assert_eq!(Step::from_json(json), Err(MetadataError::MalformedMetadata));
}

#[test]
fn item_without_id_is_malformed() {
    let json = doc(r#"{"x": {"type":"SINGLE_SELECT","content":[{"name":"Jar","default":true}]}}"#);
    assert_eq!(Step::from_json(json), Err(MetadataError::MalformedMetadata));
}

#[test]
fn action_item_without_action_is_malformed() {
    let json = doc(r#"{"type": {"type":"ACTION","content":[{"id":"m","name":"M","default":true}]}}"#);
    assert_eq!(Step::from_json(json), Err(MetadataError::MalformedMetadata));
}

#[test]
fn choice_without_default_is_malformed() {
    let json = doc(r#"{"x": {"type":"SINGLE_SELECT","content":[{"id":"jar","name":"Jar"}]}}"#);
    assert_eq!(Step::from_json(json), Err(MetadataError::MalformedMetadata));
}

#[test]
fn non_string_id_is_malformed() {
    let json = doc(r#"{"x": {"id": 3, "type":"TEXT","content":"a"}}"#);
    assert_eq!(Step::from_json(json), Err(MetadataError::MalformedMetadata));
}

#[test]
fn text_content_of_wrong_type_is_malformed() {
    let json = doc(r#"{"x": {"type":"TEXT","content":["a"]}}"#);
    assert_eq!(Step::from_json(json), Err(MetadataError::MalformedMetadata));
}

#[test]
fn second_schema_convention_is_read() {
    let json = doc(
        r#"{
        "packaging": {"type":"single-select","default":"war","values":[{"id":"jar","name":"Jar"},{"id":"war","name":"War"}]},
        "type": {"type":"action","default":"maven-project","values":[{"id":"maven-project","name":"Maven","action":"/starter.zip"}]},
        "name": {"type":"text","default":"demo"},
        "dependencies": {"type":"hierarchical-multi-select","values":[{"name":"Web","values":[{"id":"web","name":"Spring Web"},{"id":"webflux","name":"Reactive"}]},{"name":"SQL","values":[{"id":"jdbc","name":"JDBC"}]}]}
    }"#,
    );
    let steps = Step::from_json(json).expect("parses");
    assert_eq!(
        steps,
        vec![
            Step {
                name: "dependencies".to_owned(),
                kind: StepKind::MultiSelect {
                    values: vec![
                        Item::new_dependency("web".to_owned(), "Spring Web".to_owned(), "Web".to_owned()),
                        Item::new_dependency("webflux".to_owned(), "Reactive".to_owned(), "Web".to_owned()),
                        Item::new_dependency("jdbc".to_owned(), "JDBC".to_owned(), "SQL".to_owned()),
                    ]
                }
            },
            Step { name: "name".to_owned(), kind: StepKind::Text { default: "demo".to_owned() } },
            Step {
                name: "packaging".to_owned(),
                kind: StepKind::SingleSelect {
                    default: "war".to_owned(),
                    values: vec![
                        Item::new_default("jar".to_owned(), "Jar".to_owned()),
                        Item::new_default("war".to_owned(), "War".to_owned()),
                    ]
                }
            },
            Step {
                name: "type".to_owned(),
                kind: StepKind::Action {
                    default: "maven-project".to_owned(),
                    values: vec![Item::new_action(
                        "maven-project".to_owned(),
                        "Maven".to_owned(),
                        "/starter.zip".to_owned()
                    )]
                }
            },
        ]
    );
}

#[test]
fn flagged_default_wins_over_sibling_default() {
    let json = doc(
        r#"{"x": {"type":"SINGLE_SELECT","default":"a","content":[{"id":"a","name":"A"},{"id":"b","name":"B","default":true}]}}"#,
    );
    let steps = Step::from_json(json).expect("parses");
    match &steps[0].kind {
        StepKind::SingleSelect { default, .. } => assert_eq!(default, "b"),
        other => panic!("unexpected kind {:?}", other),
    }
}

#[test]
fn member_order_is_kept() {
    let json = Json::Object(vec![
        ("z".to_owned(), Json::Object(vec![
            ("type".to_owned(), Json::Str("TEXT".to_owned())),
            ("content".to_owned(), Json::Str("1".to_owned())),
        ])),
        ("a".to_owned(), Json::Object(vec![
            ("type".to_owned(), Json::Str("TEXT".to_owned())),
            ("content".to_owned(), Json::Str("2".to_owned())),
        ])),
    ]);
    let steps = Step::from_json(json).expect("parses");
    let names: Vec<&str> = steps.iter().map(|s| s.name.as_str()).collect();
    assert_eq!(names, vec!["z", "a"]);
}

#[test]
fn item_labels() {
    let dep = Item::new_dependency("web".to_owned(), "Spring Web".to_owned(), "Web".to_owned());
    assert_eq!(dep.label(), "Spring Web - (web) [Web]");
    let plain = Item::new_default("jar".to_owned(), "Jar".to_owned());
    assert_eq!(plain.label(), "Jar");
    let action = Item::new_action("m".to_owned(), "Maven".to_owned(), "/starter.zip".to_owned());
    assert_eq!(action.label(), "Maven");
}
